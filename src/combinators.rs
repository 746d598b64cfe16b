//! Services built from other services: transforms applied before or after
//! the inner call, and continuations chained onto its outcome.
use crate::service::{
    ArcService, BoxCloneService, BoxService, LocalBoxCloneService, LocalBoxService, Middleware,
    RcService, Service,
};
use vstd::prelude::*;

verus! {

/// Applies `f` to each request before the inner service sees it.
#[derive(Clone, Copy)]
pub struct MapRequest<S, F> {
    pub inner: S,
    pub f: F,
}

impl<S, F, R2, Req> Service<R2> for MapRequest<S, F> where S: Service<Req>, F: Fn(R2) -> Req {
    type Response = S::Response;

    type Error = S::Error;

    open spec fn accepts(&self, request: R2) -> bool {
        &&& self.f.requires((request,))
        &&& forall|q: Req| #[trigger] self.f.ensures((request,), q) ==> self.inner.accepts(q)
    }

    open spec fn yields(&self, request: R2, out: Result<S::Response, S::Error>) -> bool {
        exists|q: Req| #[trigger] self.f.ensures((request,), q) && self.inner.yields(q, out)
    }

    fn call(&self, request: R2) -> (out: Result<S::Response, S::Error>) {
        let q = (self.f)(request);
        self.inner.call(q)
    }
}

/// Applies `f` to each response of the inner service.
#[derive(Clone, Copy)]
pub struct MapResponse<S, F> {
    pub inner: S,
    pub f: F,
}

impl<S, F, Req, R2> Service<Req> for MapResponse<S, F> where S: Service<Req>, F: Fn(S::Response) -> R2 {
    type Response = R2;

    type Error = S::Error;

    open spec fn accepts(&self, request: Req) -> bool {
        &&& self.inner.accepts(request)
        &&& forall|v: S::Response| #[trigger] self.inner.yields(request, Ok(v)) ==> self.f.requires((v,))
    }

    open spec fn yields(&self, request: Req, out: Result<R2, S::Error>) -> bool {
        match out {
            Ok(w) => exists|v: S::Response|
                #[trigger] self.inner.yields(request, Ok(v)) && self.f.ensures((v,), w),
            Err(e) => self.inner.yields(request, Err(e)),
        }
    }

    fn call(&self, request: Req) -> (out: Result<R2, S::Error>) {
        match self.inner.call(request) {
            Ok(v) => Ok((self.f)(v)),
            Err(e) => Err(e),
        }
    }
}

/// Applies `f` to each error of the inner service.
#[derive(Clone, Copy)]
pub struct MapErr<S, F> {
    pub inner: S,
    pub f: F,
}

impl<S, F, Req, E2> Service<Req> for MapErr<S, F> where S: Service<Req>, F: Fn(S::Error) -> E2 {
    type Response = S::Response;

    type Error = E2;

    open spec fn accepts(&self, request: Req) -> bool {
        &&& self.inner.accepts(request)
        &&& forall|e: S::Error| #[trigger] self.inner.yields(request, Err(e)) ==> self.f.requires((e,))
    }

    open spec fn yields(&self, request: Req, out: Result<S::Response, E2>) -> bool {
        match out {
            Ok(v) => self.inner.yields(request, Ok(v)),
            Err(w) => exists|e: S::Error|
                #[trigger] self.inner.yields(request, Err(e)) && self.f.ensures((e,), w),
        }
    }

    fn call(&self, request: Req) -> (out: Result<S::Response, E2>) {
        match self.inner.call(request) {
            Ok(v) => Ok(v),
            Err(e) => Err((self.f)(e)),
        }
    }
}

/// Applies `f` to the whole outcome of the inner service.
#[derive(Clone, Copy)]
pub struct MapResult<S, F> {
    pub inner: S,
    pub f: F,
}

impl<S, F, Req, R2, E2> Service<Req> for MapResult<S, F> where
    S: Service<Req>,
    F: Fn(Result<S::Response, S::Error>) -> Result<R2, E2>,
 {
    type Response = R2;

    type Error = E2;

    open spec fn accepts(&self, request: Req) -> bool {
        &&& self.inner.accepts(request)
        &&& forall|o: Result<S::Response, S::Error>| #[trigger]
            self.inner.yields(request, o) ==> self.f.requires((o,))
    }

    open spec fn yields(&self, request: Req, out: Result<R2, E2>) -> bool {
        exists|o: Result<S::Response, S::Error>|
            #[trigger] self.inner.yields(request, o) && self.f.ensures((o,), out)
    }

    fn call(&self, request: Req) -> (out: Result<R2, E2>) {
        let o = self.inner.call(request);
        (self.f)(o)
    }
}

/// Runs `f` on each response of the inner service; an error of the inner
/// service is passed on without running `f`.
#[derive(Clone, Copy)]
pub struct AndThen<S, F> {
    pub inner: S,
    pub f: F,
}

impl<S, F, Req, R2> Service<Req> for AndThen<S, F> where
    S: Service<Req>,
    F: Fn(S::Response) -> Result<R2, S::Error>,
 {
    type Response = R2;

    type Error = S::Error;

    open spec fn accepts(&self, request: Req) -> bool {
        &&& self.inner.accepts(request)
        &&& forall|v: S::Response| #[trigger] self.inner.yields(request, Ok(v)) ==> self.f.requires((v,))
    }

    open spec fn yields(&self, request: Req, out: Result<R2, S::Error>) -> bool {
        ||| exists|v: S::Response| #[trigger] self.inner.yields(request, Ok(v)) && self.f.ensures((v,), out)
        ||| exists|e: S::Error| #[trigger] self.inner.yields(request, Err(e)) && out == Err::<R2, S::Error>(e)
    }

    fn call(&self, request: Req) -> (out: Result<R2, S::Error>) {
        match self.inner.call(request) {
            Ok(v) => (self.f)(v),
            Err(e) => Err(e),
        }
    }
}

/// Runs `f` on every outcome of the inner service, success or error.
#[derive(Clone, Copy)]
pub struct Then<S, F> {
    pub inner: S,
    pub f: F,
}

impl<S, F, Req, R2, E2> Service<Req> for Then<S, F> where
    S: Service<Req>,
    F: Fn(Result<S::Response, S::Error>) -> Result<R2, E2>,
 {
    type Response = R2;

    type Error = E2;

    open spec fn accepts(&self, request: Req) -> bool {
        &&& self.inner.accepts(request)
        &&& forall|o: Result<S::Response, S::Error>| #[trigger]
            self.inner.yields(request, o) ==> self.f.requires((o,))
    }

    open spec fn yields(&self, request: Req, out: Result<R2, E2>) -> bool {
        exists|o: Result<S::Response, S::Error>|
            #[trigger] self.inner.yields(request, o) && self.f.ensures((o,), out)
    }

    fn call(&self, request: Req) -> (out: Result<R2, E2>) {
        let o = self.inner.call(request);
        (self.f)(o)
    }
}

/// Builders of combined and wrapped services.
pub trait ServiceExt<Req>: Service<Req> + Sized {
    fn with<T: Middleware<Self>>(self, middleware: T) -> (r: T::Service)
        requires
            middleware.can_transform(self),
        ensures
            middleware.transforms(self, r),
    {
        middleware.transform(self)
    }

    fn map_request<F>(self, f: F) -> (r: MapRequest<Self, F>)
        ensures
            r.inner == self,
            r.f == f,
    {
        MapRequest { inner: self, f }
    }

    fn map_response<F>(self, f: F) -> (r: MapResponse<Self, F>)
        ensures
            r.inner == self,
            r.f == f,
    {
        MapResponse { inner: self, f }
    }

    fn map_err<F>(self, f: F) -> (r: MapErr<Self, F>)
        ensures
            r.inner == self,
            r.f == f,
    {
        MapErr { inner: self, f }
    }

    fn map_result<F>(self, f: F) -> (r: MapResult<Self, F>)
        ensures
            r.inner == self,
            r.f == f,
    {
        MapResult { inner: self, f }
    }

    fn and_then<F>(self, f: F) -> (r: AndThen<Self, F>)
        ensures
            r.inner == self,
            r.f == f,
    {
        AndThen { inner: self, f }
    }

    fn then<F>(self, f: F) -> (r: Then<Self, F>)
        ensures
            r.inner == self,
            r.f == f,
    {
        Then { inner: self, f }
    }

    fn boxed(self) -> (r: BoxService<Self>)
        ensures
            r.service() == self,
    {
        BoxService::new(self)
    }

    fn boxed_local(self) -> (r: LocalBoxService<Self>)
        ensures
            r.service() == self,
    {
        LocalBoxService::new(self)
    }

    fn boxed_clone(self) -> (r: BoxCloneService<Self>)
        ensures
            r.service() == self,
    {
        BoxCloneService::new(self)
    }

    fn boxed_clone_local(self) -> (r: LocalBoxCloneService<Self>)
        ensures
            r.service() == self,
    {
        LocalBoxCloneService::new(self)
    }

    fn boxed_arc(self) -> (r: ArcService<Self>)
        ensures
            r.service() == self,
    {
        ArcService::new(self)
    }

    fn boxed_rc(self) -> (r: RcService<Self>)
        ensures
            r.service() == self,
    {
        RcService::new(self)
    }
}

impl<Req, S: Service<Req>> ServiceExt<Req> for S {
}

} // verus!
