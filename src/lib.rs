//! An HTTP request-processing core: services and middleware that compose
//! without dynamic dispatch, a path router with per-method dispatch and
//! scope mounting, and a body model of data and trailer frames.
//!
//! Contracts are stated over the mathematical models of the types
//! (`frames` and `hint_lower`/`hint_upper` of a body, `lookup` of a method
//! table, `paths` and `entry` of a router). Where an outside call decides an
//! outcome, the contract names that call's result.

/// Requests, responses, methods and targets.
pub mod http;
/// The service and middleware abstractions, and the owning wrappers.
pub mod service;
/// Services built around other services.
pub mod combinators;
/// Error recovery and function middleware.
pub mod middleware;
/// Routing failures and router construction errors.
pub mod error;
/// Per-path method tables and method routes.
pub mod method;
/// The path trie.
pub mod trie;
/// The router.
pub mod router;
/// Text helpers.
pub mod text;
/// Path parameters.
pub mod params;
/// Bodies and frames.
pub mod body;
/// Bodies bounded in length.
pub mod limited;
/// Bodies as streams, streams as bodies.
pub mod stream;
/// Server-sent events.
pub mod sse;
/// Reading path parameters and headers.
pub mod extract;
/// Typed response bodies.
pub mod response;
/// WebSocket upgrade checks.
pub mod ws;
