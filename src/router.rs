use crate::error::{CallError, RouteError, RouteErrorKind, RouterError};
use crate::http::replace_request_path;
use crate::method::{handled_by, refused};
use crate::params::{insert_path_params, pairs_view, prase_path_params, split_params, tail_path};
use crate::text::strip_slash;
use crate::service::Service;
use crate::http::{Method, Request};
use crate::method::{IntoMethodRoute, MergeToMethodRouter, MethodRoute, MethodRouter};
use crate::service::Middleware;
use crate::service::ArcService;

use crate::trie::{
    colon_count, insert_error_is_conflict, is_ascii_text, insert_error_text, is_static, trie_at, trie_insert, trie_match,
    trie_accepts, trie_new, trie_routes, TrieMatch, MAX_PARAMS,
};
use crate::text::{ascii_only, concat, concat3, ends_with_char, starts_with_char};
use matchit::Router as PathTrie;
use vstd::prelude::*;

verus! {

/// The parameter name under which a scope captures the rest of the path.
pub const PRIVATE_TAIL_PARAM: &'static str = "__private__tail_param";

/// The largest route id.
pub const MAX_ROUTE_ID: u32 = 4294967295;

/// The id of one registered path pattern.
#[derive(Debug, Clone, Copy, PartialEq, Eq, Structural, Hash, Default)]
pub struct RouteId(pub u32);

impl RouteId {
    /// The id after this one, or `None` once the ids are spent.
    pub fn next(self) -> (r: Option<Self>)
        ensures
            self.0 < MAX_ROUTE_ID ==> r == Some(RouteId((self.0 + 1) as u32)),
            self.0 == MAX_ROUTE_ID ==> r is None,
    {
        if self.0 < MAX_ROUTE_ID {
            Some(RouteId(self.0 + 1))
        } else {
            None
        }
    }
}

/// The number of `:` characters in `s`.
fn count_colons(s: &str) -> (r: usize)
    ensures
        r as nat == colon_count(s@),
{
    let n = s.unicode_len();
    let mut i: usize = 0;
    let mut count: usize = 0;
    while i < n
        invariant
            n == s@.len(),
            i <= n,
            count as nat == colon_count(s@.subrange(0, i as int)),
            count <= i,
        decreases n - i,
    {
        let c = s.get_char(i);
        assert(s@.subrange(0, i + 1).drop_last() =~= s@.subrange(0, i as int));
        if c == ':' {
            count = count + 1;
        }
        i = i + 1;
    }
    assert(s@.subrange(0, n as int) =~= s@);
    count
}

/// The path patterns of a router, numbered by route id from one.
pub struct RouterInner {
    id: RouteId,
    trie: PathTrie<u32>,
    paths: Vec<String>,
}

/// Whether `p` is ASCII and starts with `/`.
pub open spec fn rooted(p: Seq<char>) -> bool {
    p.len() > 0 && p[0] == '/' && is_ascii_text(p)
}

/// The message of a path that is not ASCII.
pub open spec fn ascii_text_message() -> Seq<char> {
    "path must be ASCII"@
}

/// Whether `paths` holds `p`, at index `i`.
pub open spec fn path_at(paths: Seq<Seq<char>>, p: Seq<char>, i: int) -> bool {
    0 <= i < paths.len() && paths[i] == p
}

impl RouterInner {
    pub closed spec fn paths(&self) -> Seq<Seq<char>> {
        self.paths@.map_values(|s: String| s@)
    }

    pub closed spec fn trie(&self) -> PathTrie<u32> {
        self.trie
    }

    pub closed spec fn wf(&self) -> bool {
        &&& self.id.0 as int == self.paths@.len()
        &&& forall|i: int, j: int|
            0 <= i < j < self.paths@.len() ==> self.paths@[i]@ != self.paths@[j]@
        &&& forall|p: Seq<char>| #[trigger]
            trie_routes(self.trie).contains_key(p) <==> exists|i: int| path_at(self.paths(), p, i)
        &&& forall|i: int| 0 <= i < self.paths@.len() ==> #[trigger]
            trie_routes(self.trie)[self.paths@[i]@] == (i + 1) as u32
        &&& forall|i: int| 0 <= i < self.paths@.len() ==> rooted(#[trigger] self.paths@[i]@)
    }

    pub fn new() -> (r: Self)
        ensures
            r.wf(),
            r.paths() == Seq::<Seq<char>>::empty(),
    {
        let r = RouterInner { id: RouteId(0), trie: trie_new(), paths: Vec::new() };
        assert(r.paths() =~= Seq::<Seq<char>>::empty());
        r
    }

    /// The id of the pattern `path`, if it is held.
    pub fn find(&self, path: &String) -> (r: Option<RouteId>)
        requires
            self.wf(),
        ensures
            r matches Some(id) ==> id.0 >= 1 && path_at(self.paths(), path@, id.0 - 1),
            r is None ==> forall|i: int| !path_at(self.paths(), path@, i),
    {
        let mut i: usize = 0;
        while i < self.paths.len()
            invariant
                i <= self.paths@.len(),
                self.wf(),
                forall|j: int| 0 <= j < i ==> self.paths@[j]@ != path@,
            decreases self.paths@.len() - i,
        {
            if self.paths[i] == *path {
                return Some(RouteId((i + 1) as u32));
            }
            i = i + 1;
        }
        None
    }

    /// Issues the next route id.
    fn next(&mut self) -> (r: Option<RouteId>)
        ensures
            old(self).id.0 < MAX_ROUTE_ID ==> r == Some(RouteId((old(self).id.0 + 1) as u32))
                && final(self).id == r->Some_0,
            old(self).id.0 == MAX_ROUTE_ID ==> r is None && *final(self) == *old(self),
            final(self).paths == old(self).paths,
            final(self).trie == old(self).trie,
    {
        match self.id.next() {
            Some(id) => {
                self.id = id;
                Some(id)
            },
            None => None,
        }
    }

    /// Holds the new pattern `path` under the next route id.
    pub fn add(&mut self, path: String) -> (r: Result<RouteId, RouterError>)
        requires
            old(self).wf(),
            rooted(path@),
            forall|i: int| !path_at(old(self).paths(), path@, i),
        ensures
            r is Ok <==> takes_new(old(self).paths().len(), old(self).trie(), path@),
            r matches Ok(id) ==> final(self).wf() && final(self).paths() == old(self).paths().push(path@)
                && id.0 as int == final(self).paths().len()
                && trie_routes(final(self).trie()) == trie_routes(old(self).trie()).insert(path@, id.0),
            r matches Err(e) ==> add_failure(old(self).paths().len(), path@, e),
    {
        let id = match self.next() {
            Some(id) => id,
            None => {
                return Err(RouterError::TooManyPath);
            },
        };
        if count_colons(path.as_str()) > MAX_PARAMS {
            return Err(RouterError::InvalidPath { path, message: String::from_str("too many path parameters") });
        }
        let ghost old_trie = self.trie;
        match trie_insert(&mut self.trie, path.as_str(), id.0) {
            Ok(()) => {},
            Err(e) => {
                return Err(RouterError::from_insert_error(path, e));
            },
        }
        let ghost old_paths = self.paths();
        self.paths.push(path);
        proof {
            assert(old_trie == old(self).trie);
            assert(old_paths == old(self).paths());
            assert(self.paths() =~= old_paths.push(path@));
            assert(forall|i: int| 0 <= i < self.paths@.len() ==> self.paths()[i] == #[trigger] self.paths@[i]@);
            assert(forall|i: int| 0 <= i < old_paths.len() ==> old_paths[i] == #[trigger] old(self).paths@[i]@);
            assert forall|p: Seq<char>| #[trigger]
                trie_routes(self.trie).contains_key(p) <==> exists|i: int| path_at(self.paths(), p, i) by {
                if p == path@ {
                    assert(path_at(self.paths(), p, old_paths.len() as int));
                } else if trie_routes(old_trie).contains_key(p) {
                    let i = choose|i: int| path_at(old_paths, p, i);
                    assert(path_at(self.paths(), p, i));
                } else {
                    if exists|i: int| path_at(self.paths(), p, i) {
                        let i = choose|i: int| path_at(self.paths(), p, i);
                        assert(path_at(old_paths, p, i));
                    }
                }
            }
            assert forall|i: int| 0 <= i < self.paths@.len() implies #[trigger]
                trie_routes(self.trie)[self.paths@[i]@] == (i + 1) as u32 by {
                if i < old_paths.len() {
                    assert(path_at(old_paths, self.paths@[i]@, i));
                    assert(self.paths@[i]@ != path@);
                }
            }
            assert forall|i: int, j: int|
                0 <= i < j < self.paths@.len() implies self.paths@[i]@ != self.paths@[j]@ by {
                if j == old_paths.len() {
                    assert(!path_at(old_paths, self.paths@[i]@, i) || self.paths@[i]@ != path@);
                    assert(path_at(old_paths, old_paths[i], i));
                }
            }
        }
        Ok(id)
    }
}

/// Whether a new pattern is held: route ids are left, it names few enough
/// parameters, and the trie takes it.
pub open spec fn takes_new(held: nat, trie: PathTrie<u32>, path: Seq<char>) -> bool {
    held < MAX_ROUTE_ID && colon_count(path) <= MAX_PARAMS && trie_accepts(trie, path)
}

/// The ways in which holding a new pattern can fail.
pub open spec fn add_failure(held: nat, path: Seq<char>, e: RouterError) -> bool {
    if held >= MAX_ROUTE_ID {
        e is TooManyPath
    } else if colon_count(path) > MAX_PARAMS {
        e matches RouterError::InvalidPath { path: p, .. } && p@ == path
    } else {
        match e {
            RouterError::Conflict { path: p, .. } => p@ == path,
            RouterError::InvalidPath { path: p, .. } => p@ == path,
            RouterError::TooManyPath => false,
        }
    }
}

impl RouterError {
    /// The error for a pattern that the trie refused.
    pub fn from_insert_error(path: String, error: matchit::InsertError) -> (r: Self)
        ensures
            match r {
                RouterError::Conflict { path: p, .. } => p@ == path@,
                RouterError::InvalidPath { path: p, .. } => p@ == path@,
                RouterError::TooManyPath => false,
            },
    {
        let message = insert_error_text(&error);
        if insert_error_is_conflict(&error) {
            RouterError::Conflict { path, message }
        } else {
            RouterError::InvalidPath { path, message }
        }
    }
}

/// What a route id stands for: an exact route or a scope mounted on a prefix.
pub enum Endpoint<T> {
    Route(T),
    Scope(T),
}

impl<T> Endpoint<T> {
    pub open spec fn is_scope(&self) -> bool {
        self is Scope
    }

    pub open spec fn table(&self) -> T {
        match self {
            Endpoint::Route(t) => *t,
            Endpoint::Scope(t) => *t,
        }
    }
}

/// The message of a conflict between a route and a scope on one path.
pub open spec fn kind_conflict_text() -> Seq<char> {
    "conflict with previously registered route"@
}

/// The message of a conflict on `m`, or on the any-method fallback.
pub open spec fn method_conflict_text(m: Option<Method>) -> Seq<char> {
    match m {
        Some(m) => "conflict with previously registered `"@ + m.name() + "` HTTP method"@,
        None => "conflict with previously registered any HTTP method"@,
    }
}

fn method_conflict_message(m: Option<Method>) -> (r: String)
    ensures
        r@ == method_conflict_text(m),
{
    match m {
        Some(m) => concat3("conflict with previously registered `", m.as_str(), "` HTTP method"),
        None => String::from_str("conflict with previously registered any HTTP method"),
    }
}

/// The pattern that `route` registers for `path`: a trailing `*` captures the
/// rest of the path under the reserved name.
pub open spec fn route_pattern(path: Seq<char>) -> Seq<char> {
    if path.len() > 0 && path.last() == '*' {
        path + PRIVATE_TAIL_PARAM@
    } else {
        path
    }
}

/// The pattern that `scope` registers for `path`: the prefix followed by a
/// catch-all of the rest under the reserved name.
pub open spec fn scope_pattern(path: Seq<char>) -> Seq<char> {
    if path.len() > 0 && path.last() == '/' {
        path + "*"@ + PRIVATE_TAIL_PARAM@
    } else {
        path + "/*"@ + PRIVATE_TAIL_PARAM@
    }
}

/// Whether `e` is a conflict on `path` with message `message`.
pub open spec fn conflict_on(e: RouterError, path: Seq<char>, message: Seq<char>) -> bool {
    e matches RouterError::Conflict { path: p, message: m } && p@ == path && m@ == message
}

/// A router from path patterns and methods to services of type `S`.
///
/// Built once by `try_route`, `try_scope`, `try_mount` and `try_merge`, then
/// only read: dispatch never changes it.
pub struct Router<S> {
    inner: RouterInner,
    table: Vec<Endpoint<MethodRouter<ArcService<S>>>>,
}

impl<S> Router<S> {
    /// The registered patterns, by route id less one.
    pub closed spec fn paths(&self) -> Seq<Seq<char>> {
        self.inner.paths()
    }

    /// The endpoint of the pattern at index `i`.
    pub closed spec fn endpoint(&self, i: int) -> Endpoint<MethodRouter<ArcService<S>>> {
        self.table@[i]
    }

    pub closed spec fn trie(&self) -> PathTrie<u32> {
        self.inner.trie()
    }

    pub closed spec fn wf(&self) -> bool {
        &&& self.inner.wf()
        &&& self.table@.len() == self.inner.paths().len()
        &&& forall|i: int| 0 <= i < self.table@.len() ==> (#[trigger] self.table@[i]).table().wf()
    }

    /// Whether `pattern` is registered, at index `i`.
    pub open spec fn holds(&self, pattern: Seq<char>) -> bool {
        exists|i: int| path_at(self.paths(), pattern, i)
    }

    pub open spec fn index_of(&self, pattern: Seq<char>) -> int {
        choose|i: int| path_at(self.paths(), pattern, i)
    }

    /// Whether `r` is the outcome of registering the entries `t` on `pattern`,
    /// as a scope where `scope` holds and else as a route.
    pub open spec fn registers<T: MergeToMethodRouter<ArcService<S>>>(
        &self,
        pattern: Seq<char>,
        scope: bool,
        t: T,
        r: Result<Self, RouterError>,
    ) -> bool {
        if self.holds(pattern) {
            let i = self.index_of(pattern);
            let ep = self.endpoint(i);
            if ep.is_scope() != scope {
                r matches Err(e) && conflict_on(e, pattern, kind_conflict_text())
            } else if t.clashes_with(ep.table()) {
                r matches Err(e) && exists|m: Option<Method>|
                    t.names(m) && #[trigger] ep.table().names(m) && conflict_on(
                        e,
                        pattern,
                        method_conflict_text(m),
                    )
            } else {
                &&& r matches Ok(n)
                &&& n.wf()
                &&& n.paths() == self.paths()
                &&& n.trie() == self.trie()
                &&& n.endpoint(i).is_scope() == scope
                &&& t.merged(ep.table(), n.endpoint(i).table())
                &&& forall|j: int|
                    0 <= j < self.paths().len() && j != i ==> #[trigger] n.endpoint(j) == self.endpoint(j)
            }
        } else {
            &&& (r is Ok <==> takes_new(self.paths().len(), self.trie(), pattern))
            &&& match r {
                Err(e) => add_failure(self.paths().len(), pattern, e),
                Ok(n) => {
                    &&& n.wf()
                    &&& n.paths() == self.paths().push(pattern)
                    &&& trie_routes(n.trie()) == trie_routes(self.trie()).insert(
                        pattern,
                        n.paths().len() as u32,
                    )
                    &&& n.endpoint(self.paths().len() as int).is_scope() == scope
                    &&& exists|e: MethodRouter<ArcService<S>>|
                        e.wf() && e.is_empty_table() && #[trigger] t.merged(
                            e,
                            n.endpoint(self.paths().len() as int).table(),
                        )
                    &&& forall|j: int|
                        0 <= j < self.paths().len() ==> #[trigger] n.endpoint(j) == self.endpoint(j)
                },
            }
        }
    }

    pub fn new() -> (r: Self)
        ensures
            r.wf(),
            r.paths() == Seq::<Seq<char>>::empty(),
    {
        Router { inner: RouterInner::new(), table: Vec::new() }
    }

    fn add_path(&mut self, path: String) -> (r: Result<RouteId, RouterError>)
        requires
            old(self).wf(),
            rooted(path@),
        ensures
            old(self).holds(path@) ==> r == Ok::<RouteId, RouterError>(RouteId((old(self).index_of(path@) + 1) as u32))
                && *final(self) == *old(self),
            !old(self).holds(path@) ==> (r is Ok <==> takes_new(old(self).paths().len(), old(self).trie(), path@)),
            !old(self).holds(path@) ==> match r {
                Ok(id) => final(self).inner.wf() && final(self).paths() == old(self).paths().push(path@)
                    && id.0 == final(self).paths().len() && final(self).table == old(self).table
                    && trie_routes(final(self).trie()) == trie_routes(old(self).trie()).insert(path@, id.0),
                Err(e) => add_failure(old(self).paths().len(), path@, e),
            },
    {
        match self.inner.find(&path) {
            Some(id) => {
                proof {
                    let i = self.index_of(path@);
                    assert(path_at(self.paths(), path@, id.0 - 1));
                    assert(path_at(self.paths(), path@, i));
                    assert(self.inner.wf());
                    assert(self.paths()[i] == self.inner.paths@[i]@);
                    assert(self.paths()[id.0 - 1] == self.inner.paths@[id.0 - 1]@);
                }
                Ok(id)
            },
            None => self.inner.add(path),
        }
    }
}

impl<S> Router<S> {
    /// Registers the entries `endpoint` on the pattern `path`, reusing the
    /// route id of a pattern that is already held.
    fn add_route<T: MergeToMethodRouter<ArcService<S>>>(self, path: String, endpoint: Endpoint<T>) -> (r:
        Result<Self, RouterError>)
        requires
            self.wf(),
            rooted(path@),
            endpoint.table().well_formed(),
        ensures
            self.registers(path@, endpoint.is_scope(), endpoint.table(), r),
    {
        let ghost start = self;
        let mut this = self;
        let id = match this.add_path(path.clone()) {
            Ok(id) => id,
            Err(e) => {
                return Err(e);
            },
        };
        let ghost grown = this;
        assert(id.0 >= 1) by {
            if start.holds(path@) {
                let i = start.index_of(path@);
                assert(path_at(start.paths(), path@, i));
            }
        }
        let idx = (id.0 - 1) as usize;
        let (t, scope) = match endpoint {
            Endpoint::Route(t) => (t, false),
            Endpoint::Scope(t) => (t, true),
        };
        let fresh = idx == this.table.len();
        let (mut tbl, existing_scope) = if fresh {
            (MethodRouter::new(), scope)
        } else {
            match this.table.remove(idx) {
                Endpoint::Route(r) => (r, false),
                Endpoint::Scope(r) => (r, true),
            }
        };
        let ghost before = tbl;
        if existing_scope != scope {
            return Err(
                RouterError::Conflict {
                    path,
                    message: String::from_str("conflict with previously registered route"),
                },
            );
        }
        match t.merge_to(&mut tbl) {
            Ok(()) => {},
            Err(m) => {
                proof {
                    assert(start.holds(path@) == !fresh);
                    if !fresh {
                        assert(start.index_of(path@) == idx);
                        assert(before == start.endpoint(idx as int).table());
                    }
                    assert(t.names(m) && before.names(m));
                }
                return Err(RouterError::Conflict { path, message: method_conflict_message(m) });
            },
        }
        let entry = if scope {
            Endpoint::Scope(tbl)
        } else {
            Endpoint::Route(tbl)
        };
        let ghost removed = this.table@;
        this.table.insert(idx, entry);
        proof {
            assert(start.holds(path@) == !fresh);
            if !fresh {
                assert(start.index_of(path@) == idx);
                assert(before == start.endpoint(idx as int).table());
                assert(this.table@ =~= start.table@.update(idx as int, entry));
                assert(this.inner == start.inner);
            } else {
                assert(this.table@ =~= start.table@.push(entry));
            }
            assert(forall|j: int| 0 <= j < this.table@.len() && j != idx ==> this.table@[j] == start.table@[j]);
            assert(this.wf());
            assert(scope == endpoint.is_scope());
            assert(t == endpoint.table());
            assert(t.merged(before, this.endpoint(idx as int).table()));
            if fresh {
                assert(before.wf() && before.is_empty_table());
                assert(this.paths() == start.paths().push(path@));
                assert(idx == start.paths().len());
                assert(forall|j: int| 0 <= j < start.paths().len() ==> #[trigger] this.endpoint(j) == start.endpoint(j));
            } else {
                assert(this.paths() == start.paths());
                assert(this.trie() == start.trie());
                assert(forall|j: int| 0 <= j < start.paths().len() && j != idx ==> #[trigger] this.endpoint(j) == start.endpoint(j));
            }
        }
        Ok(this)
    }
}


/// The message of a path that does not start with `/`.
pub open spec fn leading_slash_text() -> Seq<char> {
    "path must start with a `/`"@
}

/// Whether `w` is `route` with its service shared behind an `ArcService`.
pub open spec fn shares<S>(w: MethodRoute<ArcService<S>>, route: MethodRoute<S>) -> bool {
    w.methods == route.methods && w.service.service() == route.service
}

impl<S> Router<S> {
    fn shared(route: MethodRoute<S>) -> (r: MethodRoute<ArcService<S>>)
        ensures
            shares(r, route),
    {
        let MethodRoute { methods, service } = route;
        MethodRoute { methods, service: ArcService::new(service) }
    }

    fn relative_path_error(path: &str) -> (r: RouterError)
        ensures
            r matches RouterError::InvalidPath { path: p, message: m } && p@ == path@ && m@
                == leading_slash_text(),
    {
        RouterError::InvalidPath {
            path: String::from_str(path),
            message: String::from_str("path must start with a `/`"),
        }
    }

    /// Registers `service` on the exact path `path`; a trailing `*` captures
    /// the rest of the path.
    pub fn try_route(self, path: &str, service: MethodRoute<S>) -> (r: Result<Self, RouterError>)
        requires
            self.wf(),
        ensures
            !(path@.len() > 0 && path@[0] == '/') ==> (r matches Err(RouterError::InvalidPath {
                path: p,
                message: m,
            }) && p@ == path@ && m@ == leading_slash_text()),
            (path@.len() > 0 && path@[0] == '/' && !is_ascii_text(path@)) ==> (r matches Err(
                RouterError::InvalidPath { path: p, message: m },
            ) && p@ == path@ && m@ == ascii_text_message()),
            (path@.len() > 0 && path@[0] == '/' && is_ascii_text(path@)) ==> exists|w: MethodRoute<ArcService<S>>|
                shares(w, service) && #[trigger] self.registers(route_pattern(path@), false, w, r),
    {
        if !starts_with_char(path, '/') {
            return Err(Self::relative_path_error(path));
        }
        if !ascii_only(path) {
            return Err(
                RouterError::InvalidPath {
                    path: String::from_str(path),
                    message: String::from_str("path must be ASCII"),
                },
            );
        }
        proof {
            lemma_tail_ascii();
        }
        let pattern = if ends_with_char(path, '*') {
            concat(path, PRIVATE_TAIL_PARAM)
        } else {
            String::from_str(path)
        };
        let w = Self::shared(service);
        let ghost me = self;
        assert(pattern@ == route_pattern(path@));
        let r = self.add_route(pattern, Endpoint::Route(w));
        assert(me.registers(route_pattern(path@), false, w, r));
        r
    }

    /// Mounts `service` on every path under the prefix `path`; the rest of
    /// the path is handed to it as its own path.
    pub fn try_scope(self, path: &str, service: MethodRoute<S>) -> (r: Result<Self, RouterError>)
        requires
            self.wf(),
        ensures
            !(path@.len() > 0 && path@[0] == '/') ==> (r matches Err(RouterError::InvalidPath {
                path: p,
                message: m,
            }) && p@ == path@ && m@ == leading_slash_text()),
            (path@.len() > 0 && path@[0] == '/' && !is_ascii_text(path@)) ==> (r matches Err(
                RouterError::InvalidPath { path: p, message: m },
            ) && p@ == path@ && m@ == ascii_text_message()),
            (path@.len() > 0 && path@[0] == '/' && is_ascii_text(path@)) ==> exists|w: MethodRoute<ArcService<S>>|
                shares(w, service) && #[trigger] self.registers(scope_pattern(path@), true, w, r),
    {
        if !starts_with_char(path, '/') {
            return Err(Self::relative_path_error(path));
        }
        if !ascii_only(path) {
            return Err(
                RouterError::InvalidPath {
                    path: String::from_str(path),
                    message: String::from_str("path must be ASCII"),
                },
            );
        }
        proof {
            lemma_tail_ascii();
        }
        let pattern = if ends_with_char(path, '/') {
            concat3(path, "*", PRIVATE_TAIL_PARAM)
        } else {
            concat3(path, "/*", PRIVATE_TAIL_PARAM)
        };
        let w = Self::shared(service);
        let ghost me = self;
        assert(pattern@ == scope_pattern(path@));
        let r = self.add_route(pattern, Endpoint::Scope(w));
        assert(me.registers(scope_pattern(path@), true, w, r));
        r
    }

    /// Registers a prepared route, as `try_route` does.
    pub fn try_mount(self, route: Route<S>) -> (r: Result<Self, RouterError>)
        requires
            self.wf(),
        ensures
            !(route.path@.len() > 0 && route.path@[0] == '/') ==> (r matches Err(
                RouterError::InvalidPath { path: p, message: m },
            ) && p@ == route.path@ && m@ == leading_slash_text()),
            (route.path@.len() > 0 && route.path@[0] == '/' && !is_ascii_text(route.path@)) ==> (r matches Err(
                RouterError::InvalidPath { path: p, message: m },
            ) && p@ == route.path@ && m@ == ascii_text_message()),
            (route.path@.len() > 0 && route.path@[0] == '/' && is_ascii_text(route.path@)) ==> exists|w: MethodRoute<ArcService<S>>|
                shares(w, route.service) && #[trigger] self.registers(route_pattern(route.path@), false, w, r),
    {
        route.mount_to(self)
    }
}

/// A path together with the service registered on it.
#[derive(Debug, Clone)]
pub struct Route<S> {
    pub path: String,
    pub service: MethodRoute<S>,
}

impl<S> Route<S> {
    pub fn new<T: IntoMethodRoute<Service = S>>(path: String, service: T) -> (r: Self)
        ensures
            r.path@ == path@,
            r.service == service.method_route(),
    {
        Route { path, service: service.into_method_route() }
    }

    /// Wraps the service in `middleware`, keeping the path and methods.
    pub fn with<T: Middleware<S>>(self, middleware: T) -> (r: Route<T::Service>)
        requires
            middleware.can_transform(self.service.service),
        ensures
            r.path@ == self.path@,
            r.service.methods.view() == self.service.methods.view(),
            middleware.transforms(self.service.service, r.service.service),
    {
        let Route { path, service } = self;
        Route { path, service: service.with(middleware) }
    }

    fn mount_to(self, router: Router<S>) -> (r: Result<Router<S>, RouterError>)
        requires
            router.wf(),
        ensures
            !(self.path@.len() > 0 && self.path@[0] == '/') ==> (r matches Err(
                RouterError::InvalidPath { path: p, message: m },
            ) && p@ == self.path@ && m@ == leading_slash_text()),
            (self.path@.len() > 0 && self.path@[0] == '/' && !is_ascii_text(self.path@)) ==> (r matches Err(
                RouterError::InvalidPath { path: p, message: m },
            ) && p@ == self.path@ && m@ == ascii_text_message()),
            (self.path@.len() > 0 && self.path@[0] == '/' && is_ascii_text(self.path@)) ==> exists|w: MethodRoute<ArcService<S>>|
                shares(w, self.service) && #[trigger] router.registers(route_pattern(self.path@), false, w, r),
    {
        router.try_route(self.path.as_str(), self.service)
    }
}

/// The path a request is matched on; an empty path stands for the root.
pub open spec fn lookup_path(path: Seq<char>) -> Seq<char> {
    if path.len() == 0 {
        "/"@
    } else {
        path
    }
}

/// The parameters attached to a request before routing, as text.
pub open spec fn attached_params<B>(request: Request<B>) -> Seq<(Seq<char>, Seq<char>)> {
    match request.params {
        Some(p) => pairs_view(p.0@),
        None => Seq::empty(),
    }
}

/// Whether `after` is `before` as handed on by a match that captured `ps`:
/// the visible parameters are appended, and a scope sees the captured tail as
/// its path.
pub open spec fn routed_request<B>(
    before: Request<B>,
    after: Request<B>,
    ps: Seq<(Seq<char>, Seq<char>)>,
    scope: bool,
) -> bool {
    let (visible, tail) = split_params(ps);
    &&& after.method == before.method
    &&& after.headers == before.headers
    &&& after.body == before.body
    &&& after.uri.scheme == before.uri.scheme
    &&& after.uri.authority == before.uri.authority
    &&& after.uri.query == before.uri.query
    &&& after.params matches Some(p) && pairs_view(p.0@) == attached_params(before) + visible
    &&& if scope {
        after.uri.path@ == (match tail {
            Some(t) => t,
            None => "/"@,
        })
    } else {
        after.uri.path == before.uri.path
    }
}

impl<S> Router<S> {
    /// Whether every service of the router accepts every request.
    pub open spec fn total<B>(&self) -> bool where S: Service<Request<B>> {
        forall|i: int| 0 <= i < self.paths().len() ==> #[trigger] self.endpoint(i).table().serves_all::<B>()
    }

    /// Every method table of a well-formed router is well formed.
    pub proof fn lemma_tables_wf(&self)
        requires
            self.wf(),
        ensures
            forall|i: int| 0 <= i < self.paths().len() ==> #[trigger] self.endpoint(i).table().wf(),
    {
    }

    /// Whether `out` is what the router answers `request` with, given what
    /// the trie found for its path.
    pub open spec fn dispatched<B>(
        &self,
        found: Option<(u32, Seq<(Seq<char>, Seq<char>)>)>,
        request: Request<B>,
        out: Result<S::Response, CallError<S::Error, B>>,
    ) -> bool where S: Service<Request<B>> {
        match found {
            Some((id, ps)) => if 1 <= id <= self.paths().len() {
                let ep = self.endpoint(id - 1);
                exists|q: Request<B>|
                    routed_request(request, q, ps, ep.is_scope()) && #[trigger] ep.table().yields(q, out)
            } else {
                refused(RouteErrorKind::NotFound, request, out)
            },
            None => refused(RouteErrorKind::NotFound, request, out),
        }
    }

    /// Answers `request` given what the trie found for its path: no match,
    /// or an id that names no endpoint, is `NotFound`; else the parameters
    /// are attached, a scope's tail becomes the path, and the endpoint's
    /// method table answers.
    pub fn dispatch_match<B>(&self, found: Option<TrieMatch>, request: Request<B>) -> (out: Result<S::Response, CallError<S::Error, B>>)
        where S: Service<Request<B>>,
        requires
            self.wf(),
            self.total::<B>(),
        ensures
            self.dispatched(
                match found {
                    Some(m) => Some(m.view()),
                    None => None,
                },
                request,
                out,
            ),
    {
        let found = match found {
            Some(f) => f,
            None => {
                return Err(CallError::Route(RouteError::not_found(request)));
            },
        };
        let ghost ps = found.view().1;
        if found.id == 0 || found.id as usize > self.table.len() {
            return Err(CallError::Route(RouteError::not_found(request)));
        }
        let idx = (found.id - 1) as usize;
        let ghost before = request;
        let mut request = request;
        let ghost prior = if request.params is Some {
            request.params->Some_0.0@
        } else {
            Seq::empty()
        };
        let (visible, tail) = prase_path_params(found.params);
        let ghost shown = visible@;
        insert_path_params(&mut request.params, visible);
        proof {
            assert(pairs_view(prior + shown) =~= pairs_view(prior) + pairs_view(shown));
            assert(pairs_view(prior) =~= attached_params(before));
        }
        let ep = &self.table[idx];
        proof {
            let t = self.endpoint(idx as int).table();
            assert(t.serves_all::<B>());
            assert(t.wf());
            if t.select(request.method) is Some {
                let s = t.select(request.method)->Some_0;
                if t.lookup(request.method) is Some {
                    assert(t.lookup(request.method)->Some_0.accepts(request));
                } else if request.method == Method::Head && t.lookup(Method::Get) is Some {
                    assert(t.lookup(Method::Get)->Some_0.accepts(request));
                } else {
                    assert(t.any_service()->Some_0.accepts(request));
                }
            }
        }
        assert(self.endpoint(idx as int).table().accepts(request));
        match ep {
            Endpoint::Route(t) => {
                let out = t.call(request);
                assert(routed_request(before, request, ps, false));
                out
            },
            Endpoint::Scope(t) => {
                proof {
                    reveal_strlit("/");
                }
                match tail {
                    Some(p) => {
                        proof {
                            lemma_split_tail(ps);
                            lemma_tail_path_stable(p@);
                        }
                        replace_request_path(&mut request, p.as_str());
                    },
                    None => {
                        assert(strip_slash("/"@) =~= Seq::<char>::empty());
                        assert("/"@ + Seq::<char>::empty() =~= "/"@);
                        replace_request_path(&mut request, "/");
                    },
                }
                let out = t.call(request);
                assert(routed_request(before, request, ps, true));
                out
            },
        }
    }

    /// Routes `request` by its path and method to the registered service.
    ///
    /// On a path registered as a static pattern the request goes to that
    /// pattern's endpoint; where every pattern is static, a path that none
    /// is answered with `NotFound`.
    pub fn dispatch<B>(&self, request: Request<B>) -> (out: Result<S::Response, CallError<S::Error, B>>)
        where S: Service<Request<B>>,
        requires
            self.wf(),
            self.total::<B>(),
        ensures
            self.dispatched(trie_match(self.trie(), lookup_path(request.uri.path@)), request, out),
            self.holds(lookup_path(request.uri.path@)) && is_static(lookup_path(request.uri.path@))
                ==> self.dispatched(
                Some(((self.index_of(lookup_path(request.uri.path@)) + 1) as u32, Seq::empty())),
                request,
                out,
            ),
            (forall|i: int| 0 <= i < self.paths().len() ==> is_static(#[trigger] self.paths()[i]))
                && !self.holds(lookup_path(request.uri.path@)) ==> refused(
                RouteErrorKind::NotFound,
                request,
                out,
            ),
    {
        proof {
            reveal_strlit("/");
        }
        let found = if request.uri.path.unicode_len() == 0 {
            trie_at(&self.inner.trie, "/")
        } else {
            trie_at(&self.inner.trie, request.uri.path.as_str())
        };
        let ghost path = lookup_path(request.uri.path@);
        proof {
            reveal_strlit("/");
            self.lemma_static_lookup(path);
            if found is Some {
                let m = found->Some_0;
                if (forall|i: int| 0 <= i < self.paths().len() ==> is_static(#[trigger] self.paths()[i])) {
                    let p = choose|p: Seq<char>| #[trigger] trie_routes(self.trie()).contains_key(p)
                        && trie_routes(self.trie())[p] == m.id && (is_static(p) ==> p == path && m.params@.len() == 0);
                    let i = choose|i: int| path_at(self.paths(), p, i);
                    assert(is_static(self.paths()[i]));
                }
            }
        }
        self.dispatch_match(found, request)
    }

    proof fn lemma_static_lookup(&self, path: Seq<char>)
        requires
            self.wf(),
        ensures
            forall|p: Seq<char>| #[trigger]
                trie_routes(self.trie()).contains_key(p) <==> self.holds(p),
            self.holds(path) ==> trie_routes(self.trie())[path] == (self.index_of(path) + 1) as u32,
    {
        assert forall|p: Seq<char>| #[trigger]
            trie_routes(self.trie()).contains_key(p) <==> self.holds(p) by {
            assert(self.inner.wf());
            assert(trie_routes(self.inner.trie).contains_key(p) <==> exists|i: int| path_at(self.inner.paths(), p, i));
            assert(self.trie() == self.inner.trie);
            assert(self.paths() == self.inner.paths());
            if self.holds(p) {
                let i = choose|i: int| path_at(self.paths(), p, i);
                assert(path_at(self.inner.paths(), p, i));
            }
        }
        if self.holds(path) {
            let i = self.index_of(path);
            assert(path_at(self.paths(), path, i));
            assert(self.inner.paths@[i]@ == path);
        }
    }
}

/// A tail split from parameters is the tail path of some captured value.
proof fn lemma_split_tail(ps: Seq<(Seq<char>, Seq<char>)>)
    ensures
        split_params(ps).1 matches Some(t) ==> exists|v: Seq<char>| tail_path(v) == t,
    decreases ps.len(),
{
    if ps.len() > 0 {
        lemma_split_tail(ps.drop_last());
        let (k, v) = ps.last();
        if k == PRIVATE_TAIL_PARAM@ {
            assert(tail_path(v) == split_params(ps).1->Some_0);
        }
    }
}

/// The reserved tail name and the catch-all joints are ASCII.
proof fn lemma_tail_ascii()
    ensures
        is_ascii_text(PRIVATE_TAIL_PARAM@),
        is_ascii_text("*"@),
        is_ascii_text("/*"@),
{
    reveal_strlit("__private__tail_param");
    reveal_strlit("*");
    reveal_strlit("/*");
}

/// A captured tail already has the shape of a rooted path.
proof fn lemma_tail_path_stable(t: Seq<char>)
    requires
        exists|v: Seq<char>| tail_path(v) == t,
    ensures
        "/"@ + strip_slash(t) == t,
{
    reveal_strlit("/");
    let v = choose|v: Seq<char>| tail_path(v) == t;
    assert(t[0] == '/');
    assert(strip_slash(t) =~= strip_slash(v));
}

impl<B, S: Service<Request<B>>> Service<Request<B>> for Router<S> {
    type Response = S::Response;

    type Error = CallError<S::Error, B>;

    open spec fn accepts(&self, request: Request<B>) -> bool {
        self.wf() && self.total::<B>()
    }

    open spec fn yields(&self, request: Request<B>, out: Result<S::Response, CallError<S::Error, B>>) -> bool {
        self.dispatched(trie_match(self.trie(), lookup_path(request.uri.path@)), request, out)
    }

    fn call(&self, request: Request<B>) -> (out: Result<S::Response, CallError<S::Error, B>>) {
        self.dispatch(request)
    }
}

impl<S> Router<S> {
    /// The endpoint registered on the pattern `p`, if any.
    pub open spec fn entry(&self, p: Seq<char>) -> Option<Endpoint<MethodRouter<ArcService<S>>>> {
        if self.holds(p) {
            Some(self.endpoint(self.index_of(p)))
        } else {
            None
        }
    }

    /// Whether `n` holds on `p` what merging `other` into `self` gives there:
    /// the entry of either where only one has it, and on a pattern that both
    /// hold, the kind of both and the entries of `other` added to those of
    /// `self`.
    pub open spec fn merged_on(&self, other: Self, n: Self, p: Seq<char>) -> bool {
        match (self.entry(p), other.entry(p)) {
            (None, None) => n.entry(p) is None,
            (Some(x), None) => n.entry(p) == Some(x),
            (None, Some(y)) => n.entry(p) matches Some(z) && z.is_scope() == y.is_scope()
                && y.table().same_entries(&z.table()),
            (Some(x), Some(y)) => n.entry(p) matches Some(z) && z.is_scope() == x.is_scope()
                && y.table().united(&x.table(), &z.table()),
        }
    }

    /// Whether `e` is the failure of adding the entry of `other` on `p` to
    /// `self`: a kind conflict, a conflict naming an entry that both have, or,
    /// for a pattern new to `self`, the refusal of a new pattern.
    pub open spec fn merge_failure(&self, other: Self, p: Seq<char>, e: RouterError) -> bool {
        match (self.entry(p), other.entry(p)) {
            (Some(x), Some(y)) => if x.is_scope() != y.is_scope() {
                conflict_on(e, p, kind_conflict_text())
            } else {
                exists|m: Option<Method>|
                    y.table().names(m) && #[trigger] x.table().names(m) && conflict_on(
                        e,
                        p,
                        method_conflict_text(m),
                    )
            },
            (None, Some(_)) => match e {
                RouterError::Conflict { path: q, .. } => q@ == p,
                RouterError::InvalidPath { path: q, .. } => q@ == p,
                RouterError::TooManyPath => true,
            },
            _ => false,
        }
    }

    /// Whether `self` already holds every pattern of `other`, each of the
    /// same kind and with no entry in common.
    pub open spec fn takes_all_of(&self, other: Self) -> bool {
        forall|p: Seq<char>| #[trigger] other.entry(p) matches Some(y) ==> (self.entry(p) matches Some(
            x,
        ) && x.is_scope() == y.is_scope() && forall|m: Option<Method>|
            !(#[trigger] y.table().names(m) && x.table().names(m)))
    }

    /// Whether `r` is the outcome of merging `other` into `self`.
    pub open spec fn merges(&self, other: Self, r: Result<Self, RouterError>) -> bool {
        &&& r matches Ok(n) ==> n.wf() && forall|p: Seq<char>| #[trigger] self.merged_on(other, n, p)
        &&& r matches Err(e) ==> exists|p: Seq<char>|
            #[trigger] other.holds(p) && self.merge_failure(other, p, e)
        &&& (exists|j: int, m: Option<Method>| self.clash_at(other, j, m)) ==> r is Err
        &&& self.takes_all_of(other) ==> r is Ok
    }

    /// Whether the pattern at index `j` of `other` is registered in `self` with
    /// the same kind and an entry, for `m` or for any method, that both have.
    pub open spec fn clash_at(&self, other: Self, j: int, m: Option<Method>) -> bool {
        let p = other.paths()[j];
        &&& 0 <= j < other.paths().len()
        &&& self.holds(p)
        &&& self.endpoint(self.index_of(p)).is_scope() == other.endpoint(j).is_scope()
        &&& self.endpoint(self.index_of(p)).table().names(m)
        &&& other.endpoint(j).table().names(m)
    }

    proof fn lemma_index_of(&self, p: Seq<char>, i: int)
        requires
            self.wf(),
            path_at(self.paths(), p, i),
        ensures
            self.holds(p),
            self.index_of(p) == i,
    {
        assert(self.inner.wf());
        let k = self.index_of(p);
        assert(self.paths()[k] == self.inner.paths@[k]@);
        assert(self.paths()[i] == self.inner.paths@[i]@);
    }

    proof fn lemma_entry_at(&self, p: Seq<char>, i: int)
        requires
            self.wf(),
            path_at(self.paths(), p, i),
        ensures
            self.entry(p) == Some(self.endpoint(i)),
    {
        self.lemma_index_of(p, i);
    }

    /// What a successful registration of `t` on `pattern` changes: the entry
    /// on `pattern`, and nothing else.
    proof fn lemma_registered_entries(
        &self,
        pattern: Seq<char>,
        scope: bool,
        t: MethodRouter<ArcService<S>>,
        n: Self,
    )
        requires
            self.wf(),
            self.registers(pattern, scope, t, Ok(n)),
        ensures
            n.wf(),
            forall|q: Seq<char>| q != pattern ==> #[trigger] n.entry(q) == self.entry(q),
            n.entry(pattern) matches Some(z) && z.is_scope() == scope && match self.entry(pattern) {
                Some(x) => t.united(&x.table(), &z.table()),
                None => t.same_entries(&z.table()),
            },
    {
        if self.holds(pattern) {
            let i = self.index_of(pattern);
            assert(path_at(self.paths(), pattern, i));
            n.lemma_entry_at(pattern, i);
            assert forall|q: Seq<char>| q != pattern implies #[trigger] n.entry(q) == self.entry(q) by {
                if self.holds(q) {
                    let k = self.index_of(q);
                    assert(path_at(self.paths(), q, k));
                    n.lemma_entry_at(q, k);
                    assert(k != i);
                } else if n.holds(q) {
                    let k = n.index_of(q);
                    assert(path_at(n.paths(), q, k));
                    assert(path_at(self.paths(), q, k));
                }
            }
        } else {
            let i = self.paths().len() as int;
            assert(path_at(n.paths(), pattern, i));
            n.lemma_entry_at(pattern, i);
            let z = n.endpoint(i);
            let e = choose|e: MethodRouter<ArcService<S>>| e.wf() && e.is_empty_table() && #[trigger] t.merged(e, z.table());
            assert forall|m: Method| #[trigger] z.table().lookup(m) == t.lookup(m) by {
                assert(e.lookup(m) is None);
            }
            assert forall|q: Seq<char>| q != pattern implies #[trigger] n.entry(q) == self.entry(q) by {
                if self.holds(q) {
                    let k = self.index_of(q);
                    assert(path_at(self.paths(), q, k));
                    assert(path_at(n.paths(), q, k));
                    n.lemma_entry_at(q, k);
                } else if n.holds(q) {
                    let k = n.index_of(q);
                    assert(path_at(n.paths(), q, k));
                    if k < self.paths().len() {
                        assert(path_at(self.paths(), q, k));
                    }
                }
            }
        }
    }

    /// The patterns of a router are distinct.
    proof fn lemma_paths_distinct(&self, i: int, k: int)
        requires
            self.wf(),
            0 <= i < self.paths().len(),
            0 <= k < self.paths().len(),
            i != k,
        ensures
            self.paths()[i] != self.paths()[k],
    {
        assert(self.inner.wf());
        assert(self.paths()[i] == self.inner.paths@[i]@);
        assert(self.paths()[k] == self.inner.paths@[k]@);
    }

    /// Whether `r` is the outcome of registering the entries of `other` from
    /// index `i` on, in id order, into `self`, each as `add_route` registers
    /// it, stopping at the first error.
    pub open spec fn replay(&self, other: Self, i: int, r: Result<Self, RouterError>) -> bool
        decreases other.paths().len() - i,
    {
        if 0 <= i < other.paths().len() {
            exists|mid: Result<Self, RouterError>|
                #[trigger] self.registers(
                    other.paths()[i],
                    other.endpoint(i).is_scope(),
                    other.endpoint(i).table(),
                    mid,
                ) && match mid {
                    Ok(n) => n.replay(other, i + 1, r),
                    Err(e) => r == Err::<Self, RouterError>(e),
                }
        } else {
            r == Ok::<Self, RouterError>(*self)
        }
    }

    /// Adds every pattern of `other`, with its entries, in id order, as
    /// `try_route` and `try_scope` would: each step is the registration that
    /// `add_route` states, so a new pattern is held exactly where the trie
    /// takes it. It fails where a pattern of both has entries in common or
    /// differs in kind, or where a new pattern is refused; it succeeds where
    /// `self` already holds every pattern of `other` with the same kind and
    /// no entry in common.
    pub fn try_merge(self, other: Router<S>) -> (r: Result<Self, RouterError>)
        requires
            self.wf(),
            other.wf(),
        ensures
            self.replay(other, 0, r),
            self.merges(other, r),
    {
        let ghost base = self;
        let ghost all = other.table@;
        let ghost ps = other.paths();
        let Router { inner, table } = other;
        let paths = inner.paths;
        let mut table = table;
        let mut rest: Vec<Endpoint<MethodRouter<ArcService<S>>>> = Vec::new();
        while table.len() > 0
            invariant
                table@ == all.take(table@.len() as int),
                all.len() == table@.len() + rest@.len(),
                forall|k: int| 0 <= k < rest@.len() ==> #[trigger] rest@[k] == all[all.len() - 1 - k],
            decreases table@.len(),
        {
            let e = table.pop().unwrap();
            assert(table@ =~= all.take(table@.len() as int));
            rest.push(e);
        }
        let mut cur = self;
        let mut i: usize = 0;
        proof {
            assert forall|p: Seq<char>| #[trigger] base.merged_on(other, cur, p) || exists|k: int|
                0 <= k < all.len() && ps[k] == p by {
                if other.holds(p) {
                    let k = other.index_of(p);
                    assert(path_at(ps, p, k));
                } else {
                    assert(other.entry(p) is None);
                }
            }
        }
        while rest.len() > 0
            invariant
                cur.wf(),
                base.wf(),
                base == self,
                other.wf(),
                ps == other.paths(),
                paths@.map_values(|s: String| s@) == ps,
                all == other.table@,
                ps.len() == all.len(),
                i + rest@.len() == all.len(),
                forall|k: int| 0 <= k < rest@.len() ==> #[trigger] rest@[k] == all[all.len() - 1 - k],
                forall|p: Seq<char>| (exists|k: int| i <= k < all.len() && ps[k] == p) ==> #[trigger]
                    cur.entry(p) == base.entry(p),
                forall|p: Seq<char>| #[trigger] base.merged_on(other, cur, p) || exists|k: int|
                    i <= k < all.len() && ps[k] == p,
                forall|j: int, m: Option<Method>| 0 <= j < i ==> !#[trigger] base.clash_at(other, j, m),
                forall|r: Result<Self, RouterError>| #[trigger] cur.replay(other, i as int, r) ==> base.replay(other, 0, r),
            decreases rest@.len(),
        {
            let ghost prev = cur;
            let ghost pending = rest@;
            let ep = rest.pop().unwrap();
            let j = i;
            assert(ep == pending[pending.len() - 1]);
            assert(ep == other.endpoint(j as int));
            let path = paths[j].clone();
            let ghost p = ps[j as int];
            assert(path@ == p);
            assert(path_at(ps, p, j as int));
            proof {
                other.lemma_entry_at(p, j as int);
                assert(other.inner.wf());
                assert(other.inner.paths@[j as int]@ == p);
                assert(rooted(p));
                assert(exists|k: int| j <= k < all.len() && ps[k] == p);
                assert(prev.entry(p) == base.entry(p));
                if base.holds(p) {
                    base.lemma_entry_at(p, base.index_of(p));
                    assert(path_at(base.paths(), p, base.index_of(p)));
                    prev.lemma_entry_at(p, prev.index_of(p));
                    assert(path_at(prev.paths(), p, prev.index_of(p)));
                } else {
                    assert(!prev.holds(p));
                }
            }
            let ghost t = ep.table();
            let ghost scope = ep.is_scope();
            let step = cur.add_route(path, ep);
            proof {
                assert(prev.registers(p, scope, t, step));
                assert(ps[j as int] == p && other.endpoint(j as int).table() == t);
            }
            match step {
                Ok(n) => {
                    proof {
                        prev.lemma_registered_entries(p, scope, t, n);
                        assert forall|q: Seq<char>| (exists|k: int| j + 1 <= k < all.len() && ps[k] == q) implies #[trigger]
                            n.entry(q) == base.entry(q) by {
                            let k = choose|k: int| j + 1 <= k < all.len() && ps[k] == q;
                            other.lemma_paths_distinct(k, j as int);
                            assert(prev.entry(q) == base.entry(q));
                        }
                        assert forall|q: Seq<char>| #[trigger] base.merged_on(other, n, q) || exists|k: int|
                            j + 1 <= k < all.len() && ps[k] == q by {
                            if q == p {
                                assert(other.entry(p) == Some(ep));
                            } else if !(exists|k: int| j + 1 <= k < all.len() && ps[k] == q) {
                                if exists|k: int| j <= k < all.len() && ps[k] == q {
                                    let k = choose|k: int| j <= k < all.len() && ps[k] == q;
                                    assert(k > j);
                                }
                                assert(base.merged_on(other, prev, q));
                                assert(n.entry(q) == prev.entry(q));
                            }
                        }
                        assert forall|k: int, m: Option<Method>| 0 <= k < j + 1 implies !#[trigger] base.clash_at(other, k, m) by {
                            if k == j && base.clash_at(other, k, m) {
                                assert(base.entry(p) matches Some(x) && x.table().names(m));
                                assert(t.names(m));
                                assert(t.clashes(&prev.endpoint(prev.index_of(p)).table()));
                            }
                        }
                        assert forall|r: Result<Self, RouterError>| #[trigger] n.replay(other, j + 1, r) implies base.replay(other, 0, r) by {
                            assert(prev.replay(other, j as int, r));
                        }
                    }
                    cur = n;
                    i = i + 1;
                },
                Err(e) => {
                    proof {
                        assert(prev.replay(other, j as int, Err(e)));
                        assert(other.holds(p));
                        assert(base.merge_failure(other, p, e));
                        assert(exists|q: Seq<char>| #[trigger] other.holds(q) && base.merge_failure(other, q, e));
                        if base.takes_all_of(other) {
                            assert(other.entry(p) matches Some(y) && y == ep);
                            let x = base.entry(p)->Some_0;
                            assert(!t.clashes(&x.table())) by {
                                assert forall|m: Method| !(#[trigger] t.lookup(m) is Some && x.table().lookup(m) is Some) by {
                                    assert(!(t.names(Some(m)) && x.table().names(Some(m))));
                                }
                                assert(!(t.names(None) && x.table().names(None)));
                            }
                            assert(prev.holds(p));
                            assert(prev.endpoint(prev.index_of(p)) == x);
                            assert(x.is_scope() == scope);
                            assert(false);
                        }
                    }
                    return Err(e);
                },
            }
        }
        proof {
            assert(i == all.len());
            assert forall|q: Seq<char>| #[trigger] base.merged_on(other, cur, q) by {
                assert(!(exists|k: int| i <= k < all.len() && ps[k] == q));
            }
            assert(cur.replay(other, i as int, Ok(cur)));
        }
        Ok(cur)
    }
}

impl<S> Router<S> {
    /// A router that holds nothing serves every request it accepts.
    pub proof fn lemma_empty_total<B>(&self)
        where S: Service<Request<B>>,
        requires
            self.paths().len() == 0,
        ensures
            self.total::<B>(),
    {
    }

    /// Registering services that accept every request keeps every service of
    /// the router total.
    pub proof fn lemma_registered_total<B>(
        &self,
        pattern: Seq<char>,
        scope: bool,
        w: MethodRoute<ArcService<S>>,
        n: Self,
    )
        where S: Service<Request<B>>,
        requires
            self.wf(),
            self.total::<B>(),
            self.registers(pattern, scope, w, Ok(n)),
            forall|q: Request<B>| #[trigger] w.service.accepts(q),
        ensures
            n.total::<B>(),
    {
        assert forall|i: int| 0 <= i < n.paths().len() implies #[trigger] n.endpoint(i).table().serves_all::<B>() by {
            let z = n.endpoint(i).table();
            let changed = if self.holds(pattern) {
                self.index_of(pattern)
            } else {
                self.paths().len() as int
            };
            if i != changed {
                assert(n.endpoint(i) == self.endpoint(i));
            } else {
                let before = if self.holds(pattern) {
                    self.endpoint(i).table()
                } else {
                    choose|e: MethodRouter<ArcService<S>>|
                        e.wf() && e.is_empty_table() && #[trigger] w.merged(e, z)
                };
                assert(w.merged(before, z));
                if self.holds(pattern) {
                    assert(path_at(self.paths(), pattern, i));
                    assert(self.endpoint(i).table().serves_all::<B>());
                } else {
                    assert(before.is_empty_table());
                    assert(before.any_service() is None);
                }
                assert forall|m: Method, q: Request<B>| z.lookup(m) is Some implies #[trigger] z.lookup(m)->Some_0.accepts(q) by {
                    if z.lookup(m) != Some(w.service) {
                        assert(z.lookup(m) == before.lookup(m));
                        assert(before.lookup(m) is Some);
                        assert(before.lookup(m)->Some_0.accepts(q));
                    }
                }
                assert forall|q: Request<B>| z.any_service() is Some implies #[trigger] z.any_service()->Some_0.accepts(q) by {
                    if z.any_service() != Some(w.service) {
                        assert(z.any_service() == before.any_service());
                        assert(before.any_service()->Some_0.accepts(q));
                    }
                }
            }
        }
    }
}

impl<S> Router<S> {
    /// Merging two routers whose services accept every request gives a
    /// router whose services do too.
    pub proof fn lemma_merged_total<B>(&self, other: Self, n: Self)
        where S: Service<Request<B>>,
        requires
            self.wf(),
            other.wf(),
            n.wf(),
            self.total::<B>(),
            other.total::<B>(),
            forall|p: Seq<char>| #[trigger] self.merged_on(other, n, p),
        ensures
            n.total::<B>(),
    {
        assert forall|i: int| 0 <= i < n.paths().len() implies #[trigger] n.endpoint(i).table().serves_all::<B>() by {
            let p = n.paths()[i];
            assert(path_at(n.paths(), p, i));
            n.lemma_entry_at(p, i);
            assert(self.merged_on(other, n, p));
            let z = n.endpoint(i).table();
            if self.holds(p) {
                let k = self.index_of(p);
                assert(path_at(self.paths(), p, k));
                assert(self.endpoint(k).table().serves_all::<B>());
            }
            if other.holds(p) {
                let k = other.index_of(p);
                assert(path_at(other.paths(), p, k));
                assert(other.endpoint(k).table().serves_all::<B>());
            }
            if self.holds(p) && other.holds(p) {
                let x = self.endpoint(self.index_of(p)).table();
                let y = other.endpoint(other.index_of(p)).table();
                assert forall|m: Method, q: Request<B>| z.lookup(m) is Some implies #[trigger] z.lookup(m)->Some_0.accepts(q) by {
                    if y.lookup(m) is Some {
                        assert(y.lookup(m)->Some_0.accepts(q));
                    } else {
                        assert(x.lookup(m)->Some_0.accepts(q));
                    }
                }
                assert forall|q: Request<B>| z.any_service() is Some implies #[trigger] z.any_service()->Some_0.accepts(q) by {
                    if y.any_service() is Some {
                        assert(y.any_service()->Some_0.accepts(q));
                    } else {
                        assert(x.any_service()->Some_0.accepts(q));
                    }
                }
            } else if other.holds(p) {
                let y = other.endpoint(other.index_of(p)).table();
                assert forall|m: Method, q: Request<B>| z.lookup(m) is Some implies #[trigger] z.lookup(m)->Some_0.accepts(q) by {
                    assert(y.lookup(m)->Some_0.accepts(q));
                }
                assert forall|q: Request<B>| z.any_service() is Some implies #[trigger] z.any_service()->Some_0.accepts(q) by {
                    assert(y.any_service()->Some_0.accepts(q));
                }
            }
        }
    }
}

/// A request on a static path registered on an empty router, for its
/// method or for any method, goes to the registered service, with the
/// request unchanged but for an empty parameter list attached.
pub proof fn lemma_static_route_reaches_service<S, B>(
    empty: Router<S>,
    router: Router<S>,
    pattern: Seq<char>,
    w: MethodRoute<ArcService<S>>,
    request: Request<B>,
    out: Result<S::Response, CallError<S::Error, B>>,
)
    where S: Service<Request<B>>,
    requires
        empty.wf(),
        empty.paths().len() == 0,
        empty.registers(pattern, false, w, Ok(router)),
        is_static(pattern),
        lookup_path(request.uri.path@) == pattern,
        match w.methods.view() {
            None => true,
            Some(set) => set.contains(request.method),
        },
        router.dispatched(
            Some(((router.index_of(pattern) + 1) as u32, Seq::empty())),
            request,
            out,
        ),
    ensures
        exists|q: Request<B>|
            routed_request(request, q, Seq::empty(), false) && #[trigger] handled_by(w.service, q, out),
{
    assert(path_at(router.paths(), pattern, 0));
    router.lemma_index_of(pattern, 0);
    let z = router.endpoint(0).table();
    let e = choose|e: MethodRouter<ArcService<S>>| e.wf() && e.is_empty_table() && #[trigger] w.merged(e, z);
    let q = choose|q: Request<B>|
        routed_request(request, q, Seq::empty(), false) && #[trigger] z.yields(q, out);
    assert(q.method == request.method);
    match w.methods.view() {
        None => {
            assert(z.lookup(request.method) == e.lookup(request.method));
            assert(z.lookup(Method::Get) == e.lookup(Method::Get));
            assert(z.select(q.method) == Some(w.service));
        },
        Some(set) => {
            assert(z.select(q.method) == Some(w.service));
        },
    }
    assert(handled_by(w.service, q, out));
}

/// Registering a second service for a method on a path that already has
/// one for it fails with a conflict that names the path and that method.
pub proof fn lemma_second_registration_conflicts<S>(
    first: Router<S>,
    second: Router<S>,
    pattern: Seq<char>,
    m: Method,
    a: MethodRoute<ArcService<S>>,
    b: MethodRoute<ArcService<S>>,
    r: Result<Router<S>, RouterError>,
)
    requires
        first.wf(),
        a.methods.view() matches Some(ms) && ms.contains(m),
        b.methods.view() == Some(set![m]),
        first.registers(pattern, false, a, Ok(second)),
        second.registers(pattern, false, b, r),
    ensures
        r matches Err(e) && conflict_on(e, pattern, method_conflict_text(Some(m))),
{
    let i = if first.holds(pattern) {
        first.index_of(pattern)
    } else {
        first.paths().len() as int
    };
    assert(path_at(second.paths(), pattern, i));
    second.lemma_index_of(pattern, i);
    let t = second.endpoint(i).table();
    assert(t.lookup(m) is Some);
    assert(b.clashes_with(t));
    let e = r->Err_0;
    let k = choose|k: Option<Method>|
        b.names(k) && #[trigger] t.names(k) && conflict_on(e, pattern, method_conflict_text(k));
    assert(k == Some(m));
}

/// Two routers that both register a path as a route with an entry for the
/// same method clash there, so merging them fails.
pub proof fn lemma_merge_shared_method_clashes<S>(
    a: Router<S>,
    b: Router<S>,
    pattern: Seq<char>,
    m: Method,
)
    requires
        a.wf(),
        b.wf(),
        a.holds(pattern),
        b.holds(pattern),
        !a.endpoint(a.index_of(pattern)).is_scope(),
        !b.endpoint(b.index_of(pattern)).is_scope(),
        a.endpoint(a.index_of(pattern)).table().lookup(m) is Some,
        b.endpoint(b.index_of(pattern)).table().lookup(m) is Some,
    ensures
        exists|j: int, k: Option<Method>| a.clash_at(b, j, k),
{
    let j = b.index_of(pattern);
    assert(path_at(b.paths(), pattern, j));
    assert(a.clash_at(b, j, Some(m)));
}

/// Merging a router that registers one path as a route for the single
/// method `m` into one with a route for `m` on that path fails with the
/// conflict that registering it directly gives: it names the path and `m`.
pub proof fn lemma_merge_conflict_names_method<S>(
    a: Router<S>,
    b: Router<S>,
    pattern: Seq<char>,
    m: Method,
    r: Result<Router<S>, RouterError>,
)
    requires
        a.wf(),
        b.wf(),
        a.merges(b, r),
        b.paths() == seq![pattern],
        a.entry(pattern) matches Some(x) && !x.is_scope() && x.table().lookup(m) is Some,
        b.entry(pattern) matches Some(y) && !y.is_scope() && forall|k: Option<Method>|
            #[trigger] y.table().names(k) <==> k == Some(m),
    ensures
        r matches Err(e) && conflict_on(e, pattern, method_conflict_text(Some(m))),
{
    assert(path_at(b.paths(), pattern, 0));
    b.lemma_entry_at(pattern, 0);
    let y = b.entry(pattern)->Some_0;
    assert(y.table().names(Some(m)));
    assert(a.clash_at(b, 0, Some(m)));
    let e = r->Err_0;
    let q = choose|q: Seq<char>| #[trigger] b.holds(q) && a.merge_failure(b, q, e);
    let i = b.index_of(q);
    assert(path_at(b.paths(), q, i));
    assert(q == pattern);
    let x = a.entry(pattern)->Some_0;
    let k = choose|k: Option<Method>|
        y.table().names(k) && #[trigger] x.table().names(k) && conflict_on(e, pattern, method_conflict_text(k));
    assert(k == Some(m));
}

/// Routing reads only the request's path: two requests with the same path
/// meet the same trie match, and so the same endpoint.
pub proof fn lemma_routing_reads_path_only<S, B>(router: Router<S>, q1: Request<B>, q2: Request<B>)
    requires
        q1.uri.path@ == q2.uri.path@,
    ensures
        trie_match(router.trie(), lookup_path(q1.uri.path@)) == trie_match(
            router.trie(),
            lookup_path(q2.uri.path@),
        ),
{
}

} // verus!
