//! The checks of a WebSocket upgrade request.
use crate::extract::{first_header, first_header_value, name_eq, same_name};
use crate::http::Request;
use vstd::prelude::*;

verus! {

/// Why a request cannot be upgraded to a WebSocket.
#[derive(Debug, Clone, Copy, PartialEq, Eq, Structural)]
pub enum WebSocketUpgradeError {
    InvalidConnectionHeader,
    InvalidUpgradeHeader,
    InvalidWebSocketVersionHeader,
    MissingWebSocketKeyHeader,
    ConnectionNotUpgradable,
}

impl WebSocketUpgradeError {
    pub open spec fn text(&self) -> Seq<char> {
        match self {
            WebSocketUpgradeError::InvalidConnectionHeader => "invalid request header `Connection`"@,
            WebSocketUpgradeError::InvalidUpgradeHeader => "invalid request header `Upgrade`"@,
            WebSocketUpgradeError::InvalidWebSocketVersionHeader =>
                "invalid request header `Sec-WebSocket-Version`"@,
            WebSocketUpgradeError::MissingWebSocketKeyHeader =>
                "missing request header `Sec-WebSocket-Key`"@,
            WebSocketUpgradeError::ConnectionNotUpgradable => "connection not upgradable"@,
        }
    }

    /// The text shown for this error.
    pub fn to_string(&self) -> (r: String)
        ensures
            r@ == self.text(),
    {
        match self {
            WebSocketUpgradeError::InvalidConnectionHeader => String::from_str(
                "invalid request header `Connection`",
            ),
            WebSocketUpgradeError::InvalidUpgradeHeader => String::from_str(
                "invalid request header `Upgrade`",
            ),
            WebSocketUpgradeError::InvalidWebSocketVersionHeader => String::from_str(
                "invalid request header `Sec-WebSocket-Version`",
            ),
            WebSocketUpgradeError::MissingWebSocketKeyHeader => String::from_str(
                "missing request header `Sec-WebSocket-Key`",
            ),
            WebSocketUpgradeError::ConnectionNotUpgradable => String::from_str(
                "connection not upgradable",
            ),
        }
    }
}

/// The value of the first header named `name`, if any.
pub open spec fn header_value<B>(request: &Request<B>, name: Seq<char>) -> Option<Seq<char>> {
    match first_header(request.headers@, name) {
        Some(i) => Some(request.headers@[i].1@),
        None => None,
    }
}

/// Whether the first header named `name` has the value `value`, ignoring
/// ASCII case where `fold` holds.
pub open spec fn header_is<B>(request: &Request<B>, name: Seq<char>, value: Seq<char>, fold: bool) -> bool {
    header_value(request, name) matches Some(v) && if fold {
        same_name(v, value)
    } else {
        v == value
    }
}

fn header_matches<B>(request: &Request<B>, name: &str, value: &str, fold: bool) -> (r: bool)
    ensures
        r == header_is(request, name@, value@, fold),
{
    match first_header_value(request, name) {
        Some(v) => if fold {
            name_eq(v.as_str(), value)
        } else {
            let want = String::from_str(value);
            *v == want
        },
        None => false,
    }
}

/// Checks that `request` asks for a WebSocket upgrade, and gives its
/// `Sec-WebSocket-Key`.
pub fn upgrade_key<B>(request: &Request<B>) -> (r: Result<String, WebSocketUpgradeError>)
    ensures
        !header_is(request, "connection"@, "upgrade"@, true) ==> r == Err::<String, WebSocketUpgradeError>(
            WebSocketUpgradeError::InvalidConnectionHeader,
        ),
        header_is(request, "connection"@, "upgrade"@, true) && !header_is(request, "upgrade"@, "websocket"@, true)
            ==> r == Err::<String, WebSocketUpgradeError>(WebSocketUpgradeError::InvalidUpgradeHeader),
        header_is(request, "connection"@, "upgrade"@, true) && header_is(request, "upgrade"@, "websocket"@, true)
            && !header_is(request, "sec-websocket-version"@, "13"@, false) ==> r == Err::<
            String,
            WebSocketUpgradeError,
        >(WebSocketUpgradeError::InvalidWebSocketVersionHeader),
        header_is(request, "connection"@, "upgrade"@, true) && header_is(request, "upgrade"@, "websocket"@, true)
            && header_is(request, "sec-websocket-version"@, "13"@, false) ==> match header_value(
            request,
            "sec-websocket-key"@,
        ) {
            Some(k) => r matches Ok(key) && key@ == k,
            None => r == Err::<String, WebSocketUpgradeError>(WebSocketUpgradeError::MissingWebSocketKeyHeader),
        },
{
    if !header_matches(request, "connection", "upgrade", true) {
        return Err(WebSocketUpgradeError::InvalidConnectionHeader);
    }
    if !header_matches(request, "upgrade", "websocket", true) {
        return Err(WebSocketUpgradeError::InvalidUpgradeHeader);
    }
    if !header_matches(request, "sec-websocket-version", "13", false) {
        return Err(WebSocketUpgradeError::InvalidWebSocketVersionHeader);
    }
    match first_header_value(request, "sec-websocket-key") {
        Some(k) => Ok(k.clone()),
        None => Err(WebSocketUpgradeError::MissingWebSocketKeyHeader),
    }
}

} // verus!
