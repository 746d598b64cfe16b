//! Middleware: error recovery and middleware written as a function.
use crate::service::{Middleware, Service};
use vstd::prelude::*;

verus! {

/// Wraps a service so that its errors are handed to a recovery function.
#[derive(Clone, Copy)]
pub struct CatchErrorMiddleware<F> {
    pub f: F,
}

impl<F> CatchErrorMiddleware<F> {
    pub fn new(f: F) -> (r: Self)
        ensures
            r.f == f,
    {
        Self { f }
    }
}

impl<S, F> Middleware<S> for CatchErrorMiddleware<F> {
    type Service = CatchError<S, F>;

    open spec fn can_transform(&self, service: S) -> bool {
        true
    }

    open spec fn transforms(&self, service: S, out: CatchError<S, F>) -> bool {
        out.inner == service && out.f == self.f
    }

    fn transform(self, service: S) -> (out: CatchError<S, F>) {
        CatchError { inner: service, f: self.f }
    }
}

/// A service whose errors are answered by `f`: a response passes through,
/// an error becomes what `f` makes of it.
#[derive(Clone, Copy)]
pub struct CatchError<S, F> {
    pub inner: S,
    pub f: F,
}

impl<S, F, Req, E2> Service<Req> for CatchError<S, F> where
    S: Service<Req>,
    F: Fn(S::Error) -> Result<S::Response, E2>,
 {
    type Response = S::Response;

    type Error = E2;

    open spec fn accepts(&self, request: Req) -> bool {
        &&& self.inner.accepts(request)
        &&& forall|e: S::Error| #[trigger] self.inner.yields(request, Err(e)) ==> self.f.requires((e,))
    }

    open spec fn yields(&self, request: Req, out: Result<S::Response, E2>) -> bool {
        ||| exists|v: S::Response|
            #[trigger] self.inner.yields(request, Ok(v)) && out == Ok::<S::Response, E2>(v)
        ||| exists|e: S::Error| #[trigger] self.inner.yields(request, Err(e)) && self.f.ensures((e,), out)
    }

    fn call(&self, request: Req) -> (out: Result<S::Response, E2>) {
        match self.inner.call(request) {
            Ok(v) => Ok(v),
            Err(e) => (self.f)(e),
        }
    }
}

/// Makes a middleware of a function that takes the request and the inner
/// service and answers the request.
pub fn from_fn<F>(f: F) -> (r: FromFnMiddleware<F>)
    ensures
        r.f == f,
{
    FromFnMiddleware::new(f)
}

#[derive(Clone, Copy)]
pub struct FromFnMiddleware<F> {
    pub f: F,
}

impl<F> FromFnMiddleware<F> {
    pub fn new(f: F) -> (r: Self)
        ensures
            r.f == f,
    {
        Self { f }
    }
}

impl<S, F> Middleware<S> for FromFnMiddleware<F> {
    type Service = FromFn<S, F>;

    open spec fn can_transform(&self, service: S) -> bool {
        true
    }

    open spec fn transforms(&self, service: S, out: FromFn<S, F>) -> bool {
        out.service == service && out.f == self.f
    }

    fn transform(self, service: S) -> (out: FromFn<S, F>) {
        FromFn { service, f: self.f }
    }
}

/// A service answered by `f`, which is handed the request and the inner
/// service.
#[derive(Clone, Copy)]
pub struct FromFn<S, F> {
    pub service: S,
    pub f: F,
}

impl<S, F, Req, Res, E> Service<Req> for FromFn<S, F> where F: Fn(Req, &S) -> Result<Res, E> {
    type Response = Res;

    type Error = E;

    open spec fn accepts(&self, request: Req) -> bool {
        self.f.requires((request, &self.service))
    }

    open spec fn yields(&self, request: Req, out: Result<Res, E>) -> bool {
        self.f.ensures((request, &self.service), out)
    }

    fn call(&self, request: Req) -> (out: Result<Res, E>) {
        (self.f)(request, &self.service)
    }
}

} // verus!
