use crate::http::{Method, Request};
use crate::text::concat3;
use vstd::prelude::*;

verus! {

/// Why a request found no handler.
#[derive(Debug, Clone, Copy, PartialEq, Eq, Structural, Hash)]
pub enum RouteErrorKind {
    NotFound,
    MethodNotAllowed,
}

/// A request that found no handler, handed back whole so that an outer layer
/// can still answer it.
#[derive(Debug)]
pub struct RouteError<B> {
    kind: RouteErrorKind,
    request: Request<B>,
}

impl<B> RouteError<B> {
    pub closed spec fn spec_kind(&self) -> RouteErrorKind {
        self.kind
    }

    pub closed spec fn spec_request(&self) -> Request<B> {
        self.request
    }

    pub fn new(kind: RouteErrorKind, request: Request<B>) -> (r: Self)
        ensures
            r.spec_kind() == kind,
            r.spec_request() == request,
    {
        Self { kind, request }
    }

    pub fn not_found(request: Request<B>) -> (r: Self)
        ensures
            r.spec_kind() == RouteErrorKind::NotFound,
            r.spec_request() == request,
    {
        Self::new(RouteErrorKind::NotFound, request)
    }

    pub fn method_not_allowed(request: Request<B>) -> (r: Self)
        ensures
            r.spec_kind() == RouteErrorKind::MethodNotAllowed,
            r.spec_request() == request,
    {
        Self::new(RouteErrorKind::MethodNotAllowed, request)
    }

    pub fn kind(&self) -> (r: RouteErrorKind)
        ensures
            r == self.spec_kind(),
    {
        self.kind
    }

    pub fn request_mut(&mut self) -> (r: &mut Request<B>)
        ensures
            *r == old(self).spec_request(),
            final(self).spec_kind() == old(self).spec_kind(),
            final(self).spec_request() == *final(r),
    {
        &mut self.request
    }

    pub fn into_request(self) -> (r: Request<B>)
        ensures
            r == self.spec_request(),
    {
        self.request
    }

    /// The text shown for this error.
    pub fn to_string(&self) -> (r: String)
        ensures
            r@ == route_error_text(self.spec_kind()),
    {
        match self.kind {
            RouteErrorKind::NotFound => String::from_str("Not Found"),
            RouteErrorKind::MethodNotAllowed => String::from_str("Method Not Allowed"),
        }
    }
}

pub open spec fn route_error_text(kind: RouteErrorKind) -> Seq<char> {
    match kind {
        RouteErrorKind::NotFound => "Not Found"@,
        RouteErrorKind::MethodNotAllowed => "Method Not Allowed"@,
    }
}

/// What a call through a router can fail with: no handler for the request,
/// or the handler's own error.
#[derive(Debug)]
pub enum CallError<E, B> {
    Route(RouteError<B>),
    Service(E),
}

/// Why a router could not be built.
#[derive(Debug)]
pub enum RouterError {
    Conflict { path: String, message: String },
    InvalidPath { path: String, message: String },
    TooManyPath,
}

impl RouterError {
    pub open spec fn text(&self) -> Seq<char> {
        match self {
            RouterError::Conflict { path, message } => "conflict path "@ + path@ + " ("@ + message@ + ")"@,
            RouterError::InvalidPath { path, message } => "invalid path "@ + path@ + " ("@ + message@
                + ")"@,
            RouterError::TooManyPath => "too many path"@,
        }
    }

    /// The text shown for this error.
    pub fn to_string(&self) -> (r: String)
        ensures
            r@ == self.text(),
    {
        match self {
            RouterError::Conflict { path, message } => {
                let mut r = concat3("conflict path ", path.as_str(), " (");
                r.append(message.as_str());
                r.append(")");
                r
            },
            RouterError::InvalidPath { path, message } => {
                let mut r = concat3("invalid path ", path.as_str(), " (");
                r.append(message.as_str());
                r.append(")");
                r
            },
            RouterError::TooManyPath => String::from_str("too many path"),
        }
    }
}

} // verus!
