use std::rc::Rc;
use std::sync::Arc;
use vstd::prelude::*;

verus! {

/// Something that turns a request into a response or an error.
///
/// `accepts` says on which requests `call` may be invoked; `yields` says which
/// outcomes a call on a request may produce. A service that keeps state of its
/// own (a counter behind an atomic) describes every outcome it may produce.
pub trait Service<Req> {
    type Response;

    type Error;

    spec fn accepts(&self, request: Req) -> bool;

    spec fn yields(&self, request: Req, out: Result<Self::Response, Self::Error>) -> bool;

    fn call(&self, request: Req) -> (out: Result<Self::Response, Self::Error>)
        requires
            self.accepts(request),
        ensures
            self.yields(request, out),
    ;
}

/// A transformation from one service to another.
pub trait Middleware<S> {
    type Service;

    spec fn transforms(&self, service: S, out: Self::Service) -> bool;

    spec fn can_transform(&self, service: S) -> bool;

    fn transform(self, service: S) -> (out: Self::Service)
        requires
            self.can_transform(service),
        ensures
            self.transforms(service, out),
    ;
}

/// A service made of a function from request to outcome.
#[derive(Clone, Copy)]
pub struct ServiceFn<F> {
    pub f: F,
}

impl<F> ServiceFn<F> {
    pub fn new(f: F) -> (r: Self)
        ensures
            r.f == f,
    {
        Self { f }
    }
}

/// Makes a service of `f`.
pub fn service_fn<F>(f: F) -> (r: ServiceFn<F>)
    ensures
        r.f == f,
{
    ServiceFn::new(f)
}

impl<F, Req, Res, E> Service<Req> for ServiceFn<F> where F: Fn(Req) -> Result<Res, E> {
    type Response = Res;

    type Error = E;

    open spec fn accepts(&self, request: Req) -> bool {
        self.f.requires((request,))
    }

    open spec fn yields(&self, request: Req, out: Result<Res, E>) -> bool {
        self.f.ensures((request,), out)
    }

    fn call(&self, request: Req) -> (out: Result<Res, E>) {
        (self.f)(request)
    }
}

/// A middleware made of a function from service to service.
#[derive(Clone, Copy)]
pub struct MiddlewareFn<F> {
    pub f: F,
}

impl<F> MiddlewareFn<F> {
    pub fn new(f: F) -> (r: Self)
        ensures
            r.f == f,
    {
        Self { f }
    }
}

/// Makes a middleware of `f`.
pub fn middleware_fn<F>(f: F) -> (r: MiddlewareFn<F>)
    ensures
        r.f == f,
{
    MiddlewareFn::new(f)
}

impl<F, S1, S2> Middleware<S1> for MiddlewareFn<F> where F: FnOnce(S1) -> S2 {
    type Service = S2;

    open spec fn can_transform(&self, service: S1) -> bool {
        self.f.requires((service,))
    }

    open spec fn transforms(&self, service: S1, out: S2) -> bool {
        self.f.ensures((service,), out)
    }

    fn transform(self, service: S1) -> (out: S2) {
        (self.f)(service)
    }
}

/// A service owned through a box, used where a service is called from one place.
pub struct BoxService<S> {
    inner: Box<S>,
}

impl<S> BoxService<S> {
    pub closed spec fn service(&self) -> S {
        *self.inner
    }

    pub fn new(inner: S) -> (r: Self)
        ensures
            r.service() == inner,
    {
        Self { inner: Box::new(inner) }
    }
}

impl<Req, S: Service<Req>> Service<Req> for BoxService<S> {
    type Response = S::Response;

    type Error = S::Error;

    open spec fn accepts(&self, request: Req) -> bool {
        self.service().accepts(request)
    }

    open spec fn yields(&self, request: Req, out: Result<S::Response, S::Error>) -> bool {
        self.service().yields(request, out)
    }

    fn call(&self, request: Req) -> (out: Result<S::Response, S::Error>) {
        self.inner.call(request)
    }
}

/// A boxed service whose clones each own their own copy of the service.
pub struct BoxCloneService<S> {
    inner: Box<S>,
}

impl<S> BoxCloneService<S> {
    pub closed spec fn service(&self) -> S {
        *self.inner
    }

    pub fn new(inner: S) -> (r: Self)
        ensures
            r.service() == inner,
    {
        Self { inner: Box::new(inner) }
    }
}

impl<S: Clone> Clone for BoxCloneService<S> {
    fn clone(&self) -> (r: Self)
        ensures
            cloned(self.service(), r.service()),
    {
        Self { inner: self.inner.clone() }
    }
}

impl<Req, S: Service<Req>> Service<Req> for BoxCloneService<S> {
    type Response = S::Response;

    type Error = S::Error;

    open spec fn accepts(&self, request: Req) -> bool {
        self.service().accepts(request)
    }

    open spec fn yields(&self, request: Req, out: Result<S::Response, S::Error>) -> bool {
        self.service().yields(request, out)
    }

    fn call(&self, request: Req) -> (out: Result<S::Response, S::Error>) {
        self.inner.call(request)
    }
}

/// A service shared through an atomically counted pointer: every clone
/// refers to the one service, and cloning never copies it. Wrapping a
/// service that is already shared adds one more pointer; `share` and
/// `clone` hand out the existing one instead.
pub struct ArcService<S> {
    inner: Arc<S>,
}

impl<S> ArcService<S> {
    pub closed spec fn service(&self) -> S {
        *self.inner
    }

    pub fn new(inner: S) -> (r: Self)
        ensures
            r.service() == inner,
    {
        Self { inner: Arc::new(inner) }
    }

    /// Another handle on the same shared service.
    pub fn share(&self) -> (r: Self)
        ensures
            r == *self,
    {
        Self { inner: arc_share(&self.inner) }
    }
}

impl<S> Clone for ArcService<S> {
    fn clone(&self) -> (r: Self)
        ensures
            r == *self,
    {
        self.share()
    }
}

impl<Req, S: Service<Req>> Service<Req> for ArcService<S> {
    type Response = S::Response;

    type Error = S::Error;

    open spec fn accepts(&self, request: Req) -> bool {
        self.service().accepts(request)
    }

    open spec fn yields(&self, request: Req, out: Result<S::Response, S::Error>) -> bool {
        self.service().yields(request, out)
    }

    fn call(&self, request: Req) -> (out: Result<S::Response, S::Error>) {
        self.inner.call(request)
    }
}

/// A boxed service for use on one thread.
pub struct LocalBoxService<S> {
    inner: Box<S>,
}

impl<S> LocalBoxService<S> {
    pub closed spec fn service(&self) -> S {
        *self.inner
    }

    pub fn new(inner: S) -> (r: Self)
        ensures
            r.service() == inner,
    {
        Self { inner: Box::new(inner) }
    }
}

impl<Req, S: Service<Req>> Service<Req> for LocalBoxService<S> {
    type Response = S::Response;

    type Error = S::Error;

    open spec fn accepts(&self, request: Req) -> bool {
        self.service().accepts(request)
    }

    open spec fn yields(&self, request: Req, out: Result<S::Response, S::Error>) -> bool {
        self.service().yields(request, out)
    }

    fn call(&self, request: Req) -> (out: Result<S::Response, S::Error>) {
        self.inner.call(request)
    }
}

/// A boxed service for use on one thread, whose clones each own a copy.
pub struct LocalBoxCloneService<S> {
    inner: Box<S>,
}

impl<S> LocalBoxCloneService<S> {
    pub closed spec fn service(&self) -> S {
        *self.inner
    }

    pub fn new(inner: S) -> (r: Self)
        ensures
            r.service() == inner,
    {
        Self { inner: Box::new(inner) }
    }
}

impl<S: Clone> Clone for LocalBoxCloneService<S> {
    fn clone(&self) -> (r: Self)
        ensures
            cloned(self.service(), r.service()),
    {
        Self { inner: self.inner.clone() }
    }
}

impl<Req, S: Service<Req>> Service<Req> for LocalBoxCloneService<S> {
    type Response = S::Response;

    type Error = S::Error;

    open spec fn accepts(&self, request: Req) -> bool {
        self.service().accepts(request)
    }

    open spec fn yields(&self, request: Req, out: Result<S::Response, S::Error>) -> bool {
        self.service().yields(request, out)
    }

    fn call(&self, request: Req) -> (out: Result<S::Response, S::Error>) {
        self.inner.call(request)
    }
}

/// A service shared through a counted pointer on one thread.
pub struct RcService<S> {
    inner: Rc<S>,
}

impl<S> RcService<S> {
    pub closed spec fn service(&self) -> S {
        *self.inner
    }

    pub fn new(inner: S) -> (r: Self)
        ensures
            r.service() == inner,
    {
        Self { inner: Rc::new(inner) }
    }

    /// Another handle on the same shared service.
    pub fn share(&self) -> (r: Self)
        ensures
            r == *self,
    {
        Self { inner: rc_share(&self.inner) }
    }
}

impl<S> Clone for RcService<S> {
    fn clone(&self) -> (r: Self)
        ensures
            r == *self,
    {
        self.share()
    }
}

impl<Req, S: Service<Req>> Service<Req> for RcService<S> {
    type Response = S::Response;

    type Error = S::Error;

    open spec fn accepts(&self, request: Req) -> bool {
        self.service().accepts(request)
    }

    open spec fn yields(&self, request: Req, out: Result<S::Response, S::Error>) -> bool {
        self.service().yields(request, out)
    }

    fn call(&self, request: Req) -> (out: Result<S::Response, S::Error>) {
        self.inner.call(request)
    }
}

/// Relies on `Rc::clone`: the new pointer refers to the same allocation, so
/// it points to the same value.
#[verifier::external_body]
fn rc_share<S>(a: &Rc<S>) -> (r: Rc<S>)
    ensures
        r == *a,
{
    Rc::clone(a)
}

/// Calling a service through a box, an independently cloned box or a shared
/// pointer accepts the same requests and yields the same outcomes as calling
/// the service itself; so does each of the single-thread wrappers.
pub proof fn lemma_erasure_preserves_outcomes<Req, S: Service<Req>>(
    service: S,
    boxed: BoxService<S>,
    cloned: BoxCloneService<S>,
    shared: ArcService<S>,
    local: LocalBoxService<S>,
    local_cloned: LocalBoxCloneService<S>,
    counted: RcService<S>,
    request: Req,
    out: Result<S::Response, S::Error>,
)
    requires
        boxed.service() == service,
        cloned.service() == service,
        shared.service() == service,
        local.service() == service,
        local_cloned.service() == service,
        counted.service() == service,
    ensures
        local.accepts(request) == service.accepts(request),
        local_cloned.accepts(request) == service.accepts(request),
        counted.accepts(request) == service.accepts(request),
        local.yields(request, out) == service.yields(request, out),
        local_cloned.yields(request, out) == service.yields(request, out),
        counted.yields(request, out) == service.yields(request, out),
        boxed.accepts(request) == service.accepts(request),
        cloned.accepts(request) == service.accepts(request),
        shared.accepts(request) == service.accepts(request),
        boxed.yields(request, out) == service.yields(request, out),
        cloned.yields(request, out) == service.yields(request, out),
        shared.yields(request, out) == service.yields(request, out),
{
}

/// Relies on `Arc::clone`: the new pointer refers to the same allocation,
/// so it points to the same value.
#[verifier::external_body]
fn arc_share<S>(a: &Arc<S>) -> (r: Arc<S>)
    ensures
        r == *a,
{
    Arc::clone(a)
}

} // verus!
