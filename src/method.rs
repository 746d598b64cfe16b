use crate::error::{RouteError, RouteErrorKind, CallError};
use crate::http::{Method, Request};
use crate::service::{ArcService, Middleware, Service};
use vstd::prelude::*;

verus! {

/// The slot of each method in a method table.
pub open spec fn method_slot(m: Method) -> int {
    match m {
        Method::Get => 0,
        Method::Head => 1,
        Method::Post => 2,
        Method::Put => 3,
        Method::Delete => 4,
        Method::Connect => 5,
        Method::Options => 6,
        Method::Patch => 7,
        Method::Trace => 8,
    }
}

/// Number of slots of a method table: one per method.
pub const METHOD_COUNT: usize = 9;

fn slot_of(m: &Method) -> (r: usize)
    ensures
        r as int == method_slot(*m),
        r < METHOD_COUNT,
{
    match m {
        Method::Get => 0,
        Method::Head => 1,
        Method::Post => 2,
        Method::Put => 3,
        Method::Delete => 4,
        Method::Connect => 5,
        Method::Options => 6,
        Method::Patch => 7,
        Method::Trace => 8,
    }
}

/// The method of each slot.
fn method_at(i: usize) -> (m: Method)
    requires
        i < METHOD_COUNT,
    ensures
        method_slot(m) == i,
{
    if i == 0 {
        Method::Get
    } else if i == 1 {
        Method::Head
    } else if i == 2 {
        Method::Post
    } else if i == 3 {
        Method::Put
    } else if i == 4 {
        Method::Delete
    } else if i == 5 {
        Method::Connect
    } else if i == 6 {
        Method::Options
    } else if i == 7 {
        Method::Patch
    } else {
        Method::Trace
    }
}

/// The per-path table from HTTP method to service, with one optional
/// fallback for any method.
pub struct MethodRouter<S> {
    slots: Vec<Option<S>>,
    any: Option<S>,
}

impl<S> MethodRouter<S> {
    pub closed spec fn wf(&self) -> bool {
        self.slots@.len() == METHOD_COUNT
    }

    /// The service registered for exactly `m`.
    pub closed spec fn lookup(&self, m: Method) -> Option<S> {
        self.slots@[method_slot(m)]
    }

    /// The fallback service for any method.
    pub closed spec fn any_service(&self) -> Option<S> {
        self.any
    }

    /// The service a request with method `m` is dispatched to: its own entry,
    /// else the `GET` entry for `HEAD`, else the fallback.
    pub open spec fn select(&self, m: Method) -> Option<S> {
        if self.lookup(m) is Some {
            self.lookup(m)
        } else if m == Method::Head && self.lookup(Method::Get) is Some {
            self.lookup(Method::Get)
        } else {
            self.any_service()
        }
    }

    /// Whether the table holds nothing.
    pub open spec fn is_empty_table(&self) -> bool {
        &&& forall|m: Method| #[trigger] self.lookup(m) is None
        &&& self.any_service() is None
    }

    pub fn new() -> (r: Self)
        ensures
            r.wf(),
            r.is_empty_table(),
    {
        let mut slots: Vec<Option<S>> = Vec::new();
        let mut i: usize = 0;
        while i < METHOD_COUNT
            invariant
                i <= METHOD_COUNT,
                slots@.len() == i,
                forall|j: int| 0 <= j < i ==> slots@[j] is None,
            decreases METHOD_COUNT - i,
        {
            slots.push(None);
            i = i + 1;
        }
        MethodRouter { slots, any: None }
    }

    /// Registers `service` for `method`, replacing any earlier entry.
    pub fn add(&mut self, service: S, method: Method)
        requires
            old(self).wf(),
        ensures
            final(self).wf(),
            final(self).lookup(method) == Some(service),
            forall|m: Method| m != method ==> #[trigger] final(self).lookup(m) == old(self).lookup(m),
            final(self).any_service() == old(self).any_service(),
    {
        let i = slot_of(&method);
        self.slots.set(i, Some(service));
        assert forall|m: Method| m != method implies #[trigger] self.lookup(m) == old(self).lookup(m) by {
            assert(method_slot(m) != method_slot(method));
        }
    }

    /// Registers `service` as the fallback for any method.
    pub fn add_any(&mut self, service: S)
        requires
            old(self).wf(),
        ensures
            final(self).wf(),
            final(self).any_service() == Some(service),
            forall|m: Method| #[trigger] final(self).lookup(m) == old(self).lookup(m),
    {
        self.any = Some(service);
    }

    pub fn contains(&self, method: &Method) -> (r: bool)
        requires
            self.wf(),
        ensures
            r == self.lookup(*method) is Some,
    {
        let i = slot_of(method);
        self.slots[i].is_some()
    }

    pub fn contains_any(&self) -> (r: bool)
        ensures
            r == self.any_service() is Some,
    {
        self.any.is_some()
    }

    /// The service that a request with `method` goes to.
    pub fn find(&self, method: &Method) -> (r: Option<&S>)
        requires
            self.wf(),
        ensures
            r == (match self.select(*method) {
                Some(s) => Some(&s),
                None => None,
            }),
    {
        let i = slot_of(method);
        match &self.slots[i] {
            Some(s) => Some(s),
            None => {
                let g = slot_of(&Method::Get);
                if *method == Method::Head && self.slots[g].is_some() {
                    self.slots[g].as_ref()
                } else {
                    self.any.as_ref()
                }
            },
        }
    }

    /// Whether the two tables share a method entry or both have a fallback.
    pub open spec fn clashes(&self, other: &Self) -> bool {
        (exists|m: Method| #[trigger] self.lookup(m) is Some && other.lookup(m) is Some) || (
        self.any_service() is Some && other.any_service() is Some)
    }

    /// Whether `other` has the entries of `self`, and no others.
    pub open spec fn same_entries(&self, other: &Self) -> bool {
        &&& forall|m: Method| #[trigger] other.lookup(m) == self.lookup(m)
        &&& other.any_service() == self.any_service()
    }

    /// The table holding the entries of both, the entries of `self` first.
    pub open spec fn united(&self, other: &Self, r: &Self) -> bool {
        &&& forall|m: Method| #[trigger]
            r.lookup(m) == (if self.lookup(m) is Some {
                self.lookup(m)
            } else {
                other.lookup(m)
            })
        &&& r.any_service() == (if self.any_service() is Some {
            self.any_service()
        } else {
            other.any_service()
        })
    }
}

/// Something whose entries can be moved into a method table.
///
/// `merge_to` fails, leaving the table as it was, exactly where an entry of
/// `self` clashes with one of the table; the error names a clashing method,
/// or `None` for the any-method fallback.
pub trait MergeToMethodRouter<S>: Sized {
    spec fn well_formed(&self) -> bool;

    /// Whether an entry of `self` clashes with one of `router`.
    spec fn clashes_with(&self, router: MethodRouter<S>) -> bool;

    /// Whether `after` is `before` with the entries of `self` added.
    spec fn merged(&self, before: MethodRouter<S>, after: MethodRouter<S>) -> bool;

    /// Whether `self` has an entry for `m`, or a fallback where `m` is `None`.
    spec fn names(&self, m: Option<Method>) -> bool;

    fn merge_to(self, router: &mut MethodRouter<S>) -> (r: Result<(), Option<Method>>)
        requires
            self.well_formed(),
            old(router).wf(),
        ensures
            final(router).wf(),
            r is Ok <==> !self.clashes_with(*old(router)),
            r is Ok ==> self.merged(*old(router), *final(router)),
            r is Err ==> *final(router) == *old(router),
            r matches Err(Some(m)) ==> old(router).lookup(m) is Some && self.names(Some(m)),
            r matches Err(None) ==> old(router).any_service() is Some && self.names(None),
    ;
}

impl<S> MergeToMethodRouter<S> for MethodRouter<S> {
    open spec fn well_formed(&self) -> bool {
        self.wf()
    }

    open spec fn clashes_with(&self, router: MethodRouter<S>) -> bool {
        self.clashes(&router)
    }

    open spec fn merged(&self, before: MethodRouter<S>, after: MethodRouter<S>) -> bool {
        self.united(&before, &after)
    }

    open spec fn names(&self, m: Option<Method>) -> bool {
        match m {
            Some(m) => self.lookup(m) is Some,
            None => self.any_service() is Some,
        }
    }

    fn merge_to(self, router: &mut MethodRouter<S>) -> (r: Result<(), Option<Method>>) {
        let mut i: usize = 0;
        while i < METHOD_COUNT
            invariant
                i <= METHOD_COUNT,
                self.wf(),
                router.wf(),
                forall|m: Method| method_slot(m) < i ==> !(#[trigger] self.lookup(m) is Some && router.lookup(m) is Some),
            decreases METHOD_COUNT - i,
        {
            let m = method_at(i);
            if self.slots[i].is_some() && router.contains(&m) {
                assert(self.lookup(m) is Some && router.lookup(m) is Some);
                return Err(Some(m));
            }
            i = i + 1;
        }
        assert(forall|m: Method| method_slot(m) < METHOD_COUNT);
        let ghost start = *router;
        let MethodRouter { slots, any } = self;
        let ghost own = slots@;
        let ghost own_any = any;
        match any {
            Some(service) => {
                if router.contains_any() {
                    return Err(None);
                }
                router.add_any(service);
            },
            None => {},
        }
        let mut slots = slots;
        while slots.len() > 0
            invariant
                own.len() == METHOD_COUNT,
                slots@.len() <= METHOD_COUNT,
                slots@ == own.subrange(0, slots@.len() as int),
                router.wf(),
                forall|m: Method| #[trigger] router.lookup(m) == (if method_slot(m) >= slots@.len() && own[method_slot(m)] is Some {
                    own[method_slot(m)]
                } else {
                    start.lookup(m)
                }),
                router.any_service() == (if own_any is Some { own_any } else { start.any_service() }),
            decreases slots@.len(),
        {
            let entry = slots.pop();
            let k = slots.len();
            assert(entry == Some(own[k as int]));
            assert(slots@ =~= own.subrange(0, k as int));
            match entry {
                Some(Some(service)) => {
                    let m = method_at(k);
                    router.add(service, m);
                },
                _ => {},
            }
        }
        Ok(())
    }
}

impl<S> MethodRouter<S> {
    /// Whether every service of the table accepts every request.
    pub open spec fn serves_all<B>(&self) -> bool where S: Service<Request<B>> {
        &&& forall|m: Method, q: Request<B>|
            self.lookup(m) is Some ==> #[trigger] self.lookup(m)->Some_0.accepts(q)
        &&& forall|q: Request<B>| self.any_service() is Some ==> #[trigger] self.any_service()->Some_0.accepts(q)
    }
}

/// Whether `out` is what `service` yields for `request`, its error wrapped
/// as a handler error.
pub open spec fn handled_by<B, S: Service<Request<B>>>(
    service: S,
    request: Request<B>,
    out: Result<S::Response, CallError<S::Error, B>>,
) -> bool {
    match out {
        Ok(r) => service.yields(request, Ok(r)),
        Err(CallError::Service(e)) => service.yields(request, Err(e)),
        Err(CallError::Route(_)) => false,
    }
}

/// Whether `out` is a routing failure of `kind` that hands back `request`.
pub open spec fn refused<B, R, E>(
    kind: RouteErrorKind,
    request: Request<B>,
    out: Result<R, CallError<E, B>>,
) -> bool {
    &&& out matches Err(CallError::Route(e))
    &&& e.spec_kind() == kind
    &&& e.spec_request() == request
}

/// Passes the outcome of a handler on, its error wrapped as a handler error.
pub fn lift_outcome<R, E, B>(out: Result<R, E>) -> (r: Result<R, CallError<E, B>>)
    ensures
        match out {
            Ok(v) => r == Ok::<R, CallError<E, B>>(v),
            Err(e) => r matches Err(CallError::Service(e2)) && e2 == e,
        },
{
    match out {
        Ok(v) => Ok(v),
        Err(e) => Err(CallError::Service(e)),
    }
}

impl<B, S: Service<Request<B>>> Service<Request<B>> for MethodRouter<S> {
    type Response = S::Response;

    type Error = CallError<S::Error, B>;

    open spec fn accepts(&self, request: Request<B>) -> bool {
        &&& self.wf()
        &&& (self.select(request.method) matches Some(s) ==> s.accepts(request))
    }

    open spec fn yields(
        &self,
        request: Request<B>,
        out: Result<S::Response, CallError<S::Error, B>>,
    ) -> bool {
        match self.select(request.method) {
            Some(s) => handled_by(s, request, out),
            None => refused(RouteErrorKind::MethodNotAllowed, request, out),
        }
    }

    fn call(&self, request: Request<B>) -> (out: Result<S::Response, CallError<S::Error, B>>) {
        match self.find(&request.method) {
            Some(service) => lift_outcome(service.call(request)),
            None => Err(CallError::Route(RouteError::method_not_allowed(request))),
        }
    }
}

/// The methods a service is registered for: any method, or a set of them.
#[derive(Debug, Clone)]
pub enum Methods {
    Any,
    One(Method),
    More(Vec<Method>),
}

impl Methods {
    /// `None` for any method, else the set of methods.
    pub open spec fn view(&self) -> Option<Set<Method>> {
        match self {
            Methods::Any => None,
            Methods::One(m) => Some(set![*m]),
            Methods::More(v) => Some(v@.to_set()),
        }
    }

    /// Adds `method`; a set for any method becomes the set of `method` alone.
    pub fn add(self, method: Method) -> (r: Self)
        ensures
            r.view() == (match self.view() {
                None => Some(set![method]),
                Some(s) => Some(s.insert(method)),
            }),
    {
        match self {
            Methods::Any => Methods::One(method),
            Methods::One(m) => {
                let v = vec![m, method];
                assert(v@.to_set() =~= set![m].insert(method)) by {
                    assert(v@[0] == m && v@[1] == method);
                    assert forall|x: Method| v@.contains(x) <==> x == m || x == method by {
                        if x == m {
                            assert(v@[0] == x);
                        }
                        if x == method {
                            assert(v@[1] == x);
                        }
                    }
                }
                Methods::More(v)
            },
            Methods::More(v) => {
                let mut v = v;
                let ghost before = v@;
                v.push(method);
                proof {
                    Seq::lemma_to_set_insert_commutes(before, method);
                    assert(v@ =~= before + seq![method]);
                }
                Methods::More(v)
            },
        }
    }
}

/// A service together with the methods it answers.
#[derive(Debug, Clone)]
pub struct MethodRoute<S> {
    pub methods: Methods,
    pub service: S,
}

impl<S> MethodRoute<S> {
    pub fn any(service: S) -> (r: Self)
        ensures
            r.methods.view() is None,
            r.service == service,
    {
        Self { methods: Methods::Any, service }
    }

    pub fn one(service: S, method: Method) -> (r: Self)
        ensures
            r.methods.view() == Some(set![method]),
            r.service == service,
    {
        Self { methods: Methods::One(method), service }
    }

    pub fn more(service: S, methods: Vec<Method>) -> (r: Self)
        ensures
            r.methods.view() == Some(methods@.to_set()),
            r.service == service,
    {
        Self { methods: Methods::More(methods), service }
    }

    pub fn add(self, method: Method) -> (r: Self)
        ensures
            r.methods.view() == (match self.methods.view() {
                None => Some(set![method]),
                Some(s) => Some(s.insert(method)),
            }),
            r.service == self.service,
    {
        let MethodRoute { methods, service } = self;
        MethodRoute { methods: methods.add(method), service }
    }

    /// Wraps the service in `middleware`, keeping the methods.
    pub fn with<T: Middleware<S>>(self, middleware: T) -> (r: MethodRoute<T::Service>)
        requires
            middleware.can_transform(self.service),
        ensures
            r.methods.view() == self.methods.view(),
            middleware.transforms(self.service, r.service),
    {
        let MethodRoute { methods, service } = self;
        MethodRoute { methods, service: middleware.transform(service) }
    }
}

impl<S> MergeToMethodRouter<ArcService<S>> for MethodRoute<ArcService<S>> {
    open spec fn well_formed(&self) -> bool {
        true
    }

    open spec fn clashes_with(&self, router: MethodRouter<ArcService<S>>) -> bool {
        match self.methods.view() {
            None => router.any_service() is Some,
            Some(set) => exists|m: Method| set.contains(m) && #[trigger] router.lookup(m) is Some,
        }
    }

    open spec fn merged(
        &self,
        before: MethodRouter<ArcService<S>>,
        after: MethodRouter<ArcService<S>>,
    ) -> bool {
        match self.methods.view() {
            None => {
                &&& after.any_service() == Some(self.service)
                &&& forall|m: Method| #[trigger] after.lookup(m) == before.lookup(m)
            },
            Some(set) => {
                &&& after.any_service() == before.any_service()
                &&& forall|m: Method| #[trigger]
                    after.lookup(m) == (if set.contains(m) {
                        Some(self.service)
                    } else {
                        before.lookup(m)
                    })
            },
        }
    }

    open spec fn names(&self, m: Option<Method>) -> bool {
        match (m, self.methods.view()) {
            (None, None) => true,
            (Some(m), Some(set)) => set.contains(m),
            _ => false,
        }
    }

    fn merge_to(self, router: &mut MethodRouter<ArcService<S>>) -> (r: Result<(), Option<Method>>) {
        let ghost view = self.methods.view();
        let MethodRoute { methods, service } = self;
        match methods {
            Methods::Any => {
                if router.contains_any() {
                    return Err(None);
                }
                router.add_any(service);
            },
            Methods::One(m) => {
                if router.contains(&m) {
                    return Err(Some(m));
                }
                router.add(service, m);
                assert forall|x: Method| #[trigger] router.lookup(x) == (if set![m].contains(x) {
                    Some(service)
                } else {
                    old(router).lookup(x)
                }) by {
                    if x != m {
                        assert(!set![m].contains(x));
                    }
                }
            },
            Methods::More(ms) => {
                let mut i: usize = 0;
                while i < ms.len()
                    invariant
                        i <= ms@.len(),
                        router.wf(),
                        *router == *old(router),
                        view == Some(ms@.to_set()),
                        view == self.methods.view(),
                        forall|j: int| 0 <= j < i ==> router.lookup(#[trigger] ms@[j]) is None,
                    decreases ms@.len() - i,
                {
                    if router.contains(&ms[i]) {
                        assert(ms@.contains(ms@[i as int]));
                        assert(ms@.to_set().contains(ms@[i as int]));
                        assert(router.lookup(ms@[i as int]) is Some);
                        return Err(Some(ms[i]));
                    }
                    i = i + 1;
                }
                assert(!self.clashes_with(*old(router))) by {
                    assert forall|m: Method| ms@.to_set().contains(m) implies !(#[trigger] router.lookup(m) is Some) by {
                        let j = choose|j: int| 0 <= j < ms@.len() && ms@[j] == m;
                    }
                }
                let mut k: usize = 0;
                while k < ms.len()
                    invariant
                        k <= ms@.len(),
                        router.wf(),
                        router.any_service() == old(router).any_service(),
                        forall|m: Method| #[trigger] router.lookup(m) == (if ms@.subrange(0, k as int).contains(m) {
                            Some(service)
                        } else {
                            old(router).lookup(m)
                        }),
                    decreases ms@.len() - k,
                {
                    let ghost prev = ms@.subrange(0, k as int);
                    let ghost before = *router;
                    router.add(service.share(), ms[k]);
                    assert(ms@.subrange(0, k + 1) =~= prev.push(ms@[k as int]));
                    assert forall|m: Method| #[trigger] prev.push(ms@[k as int]).contains(m) <==> (prev.contains(m) || m == ms@[k as int]) by {
                        if prev.contains(m) {
                            let j = choose|j: int| 0 <= j < prev.len() && prev[j] == m;
                            assert(prev.push(ms@[k as int])[j] == m);
                        }
                        if m == ms@[k as int] {
                            assert(prev.push(ms@[k as int])[prev.len() as int] == m);
                        }
                        if prev.push(ms@[k as int]).contains(m) {
                            let j = choose|j: int| 0 <= j < prev.len() + 1 && prev.push(ms@[k as int])[j] == m;
                            if j < prev.len() {
                                assert(prev[j] == m);
                            }
                        }
                    }
                    k = k + 1;
                }
                assert(ms@.subrange(0, ms@.len() as int) =~= ms@);
            },
        }
        Ok(())
    }
}

/// Something that can be registered as a route: a service for any method,
/// or a service with its methods.
pub trait IntoMethodRoute {
    type Service;

    spec fn method_route(&self) -> MethodRoute<Self::Service>;

    fn into_method_route(self) -> (r: MethodRoute<Self::Service>)
        ensures
            r == self.method_route(),
    ;
}

impl<S> IntoMethodRoute for MethodRoute<S> {
    type Service = S;

    open spec fn method_route(&self) -> MethodRoute<S> {
        *self
    }

    fn into_method_route(self) -> (r: MethodRoute<S>) {
        self
    }
}

impl<S> IntoMethodRoute for ArcService<S> {
    type Service = ArcService<S>;

    open spec fn method_route(&self) -> MethodRoute<ArcService<S>> {
        MethodRoute { methods: Methods::Any, service: *self }
    }

    fn into_method_route(self) -> (r: MethodRoute<ArcService<S>>) {
        MethodRoute::any(self)
    }
}

/// A route for any method.
pub fn any<S>(service: S) -> (r: MethodRoute<S>)
    ensures
        r.methods.view() is None,
        r.service == service,
{
    MethodRoute::any(service)
}

/// A route for one method.
pub fn method<S>(service: S, m: Method) -> (r: MethodRoute<S>)
    ensures
        r.methods.view() == Some(set![m]),
        r.service == service,
{
    MethodRoute::one(service, m)
}

/// A request whose method has no entry, no `GET` entry to fall back on for
/// `HEAD`, and no any-method fallback, is refused with `MethodNotAllowed`,
/// handing the request back.
pub proof fn lemma_unregistered_method_refused<B, S: Service<Request<B>>>(
    table: MethodRouter<S>,
    request: Request<B>,
    out: Result<S::Response, CallError<S::Error, B>>,
)
    requires
        table.lookup(request.method) is None,
        !(request.method == Method::Head && table.lookup(Method::Get) is Some),
        table.any_service() is None,
        table.yields(request, out),
    ensures
        refused(RouteErrorKind::MethodNotAllowed, request, out),
{
}

/// A `HEAD` request on a table with a `GET` entry and no `HEAD` entry is
/// answered by the `GET` service.
pub proof fn lemma_head_served_by_get<B, S: Service<Request<B>>>(
    table: MethodRouter<S>,
    request: Request<B>,
    out: Result<S::Response, CallError<S::Error, B>>,
)
    requires
        request.method == Method::Head,
        table.lookup(Method::Head) is None,
        table.lookup(Method::Get) is Some,
        table.yields(request, out),
    ensures
        handled_by(table.lookup(Method::Get)->Some_0, request, out),
        !(out matches Err(CallError::Route(_))),
        table.select(request.method) == table.lookup(Method::Get),
{
}

/// A request whose method has an entry is answered by that entry's service.
pub proof fn lemma_registered_method_served<B, S: Service<Request<B>>>(
    table: MethodRouter<S>,
    request: Request<B>,
    out: Result<S::Response, CallError<S::Error, B>>,
)
    requires
        table.lookup(request.method) is Some,
        table.yields(request, out),
    ensures
        handled_by(table.lookup(request.method)->Some_0, request, out),
{
}

} // verus!
