use echo::body::{Body, BodyExt, Frame};
use echo::extract::{find, header, path, ExtractHeaderError, ExtractPathError};
use echo::http::{Method, Request, Uri};
use echo::params::{insert_path_params, prase_path_params, PathParams};
use echo::stream::{iter, BodyStream, Stream, StreamBody};
use echo::ws::{upgrade_key, WebSocketUpgradeError};

fn request(params: Option<Vec<(&str, &str)>>, headers: Vec<(&str, &str)>) -> Request<()> {
    Request {
        method: Method::Get,
        uri: Uri { scheme: None, authority: None, path: "/".to_string(), query: None },
        headers: headers.into_iter().map(|(k, v)| (k.to_string(), v.to_string())).collect(),
        params: params.map(|ps| {
            PathParams(ps.into_iter().map(|(k, v)| (k.to_string(), v.to_string())).collect())
        }),
        body: (),
    }
}

#[test]
fn path_param_last_one_wins() {
    let req = request(Some(vec![("id", "1"), ("name", "x"), ("id", "2")]), vec![]);
    assert_eq!(find(&req, "id").map(|s| s.as_str()), Some("2"));
    assert_eq!(path(&req, "name").ok(), Some("x".to_string()));
    match path(&req, "missing") {
        Err(ExtractPathError::MissingParam { name }) => assert_eq!(name, "missing"),
        _ => panic!("expected a missing parameter"),
    }
    assert!(find(&request(None, vec![]), "id").is_none());
}

#[test]
fn header_lookup_ignores_case() {
    let req = request(None, vec![("Content-Type", "text/plain"), ("content-type", "x")]);
    assert_eq!(header(&req, "content-type").ok(), Some("text/plain".to_string()));
    match header(&req, "accept") {
        Err(ExtractHeaderError::MissingHeader { name }) => assert_eq!(name, "accept"),
        _ => panic!("expected a missing header"),
    }
    assert!(matches!(header(&req, "bad name"), Err(ExtractHeaderError::InvalidHeaderName { .. })));
    assert!(matches!(header(&req, ""), Err(ExtractHeaderError::InvalidHeaderName { .. })));
}

#[test]
fn tail_parameter_is_split_out() {
    let params = vec![
        ("id".to_string(), "7".to_string()),
        ("__private__tail_param".to_string(), "a/b".to_string()),
    ];
    let (visible, tail) = prase_path_params(params);
    assert_eq!(visible, vec![("id".to_string(), "7".to_string())]);
    assert_eq!(tail.as_deref(), Some("/a/b"));
    let (_, tail) = prase_path_params(vec![("__private__tail_param".to_string(), "/c".to_string())]);
    assert_eq!(tail.as_deref(), Some("/c"));
}

#[test]
fn params_are_appended() {
    let mut slot = None;
    insert_path_params(&mut slot, vec![("a".to_string(), "1".to_string())]);
    insert_path_params(&mut slot, vec![("b".to_string(), "2".to_string())]);
    let got = slot.unwrap().into_inner();
    assert_eq!(got, vec![("a".to_string(), "1".to_string()), ("b".to_string(), "2".to_string())]);
}

#[test]
fn stream_body_stops_at_first_error() {
    let items: Vec<Result<Frame, String>> = vec![
        Ok(Frame::data(b"ab".to_vec())),
        Err("boom".to_string()),
        Ok(Frame::data(b"cd".to_vec())),
    ];
    let mut body = StreamBody::new(iter(items));
    assert!(matches!(body.poll_frame(), Some(Ok(Frame::Data(_)))));
    assert!(matches!(body.poll_frame(), Some(Err(e)) if e == "boom"));
    let items: Vec<Result<Frame, String>> = vec![Ok(Frame::data(b"x".to_vec()))];
    assert_eq!(StreamBody::new(iter(items)).collect().bytes().ok(), Some(b"x".to_vec()));
}

#[test]
fn body_stream_yields_frames_then_ends() {
    let mut s = b"abc".to_vec().stream();
    assert!(matches!(s.poll_next(), Some(Ok(Frame::Data(d))) if d == b"abc".to_vec()));
    assert!(s.poll_next().is_none());
    let s = BodyStream::new(b"z".to_vec());
    assert_eq!(s.get_ref(), &b"z".to_vec());
    assert_eq!(s.into_inner(), b"z".to_vec());
}

#[test]
fn websocket_upgrade_checks_headers() {
    use_ws();
}

fn use_ws() {
    use_ws_inner(
        vec![
            ("Connection", "Upgrade"),
            ("Upgrade", "WebSocket"),
            ("Sec-WebSocket-Version", "13"),
            ("Sec-WebSocket-Key", "dGhlIHNhbXBsZSBub25jZQ=="),
        ],
        Ok("dGhlIHNhbXBsZSBub25jZQ==".to_string()),
    );
    use_ws_inner(vec![("Connection", "keep-alive")], Err(WebSocketUpgradeError::InvalidConnectionHeader));
    use_ws_inner(
        vec![("Connection", "upgrade"), ("Upgrade", "h2c")],
        Err(WebSocketUpgradeError::InvalidUpgradeHeader),
    );
    use_ws_inner(
        vec![("Connection", "upgrade"), ("Upgrade", "websocket"), ("Sec-WebSocket-Version", "8")],
        Err(WebSocketUpgradeError::InvalidWebSocketVersionHeader),
    );
    use_ws_inner(
        vec![("Connection", "upgrade"), ("Upgrade", "websocket"), ("Sec-WebSocket-Version", "13")],
        Err(WebSocketUpgradeError::MissingWebSocketKeyHeader),
    );
    assert_eq!(
        WebSocketUpgradeError::ConnectionNotUpgradable.to_string(),
        "connection not upgradable"
    );
}

fn use_ws_inner(headers: Vec<(&str, &str)>, want: Result<String, WebSocketUpgradeError>) {
    let req = request(None, headers);
    assert_eq!(upgrade_key(&req), want);
}

#[test]
fn header_value_must_be_visible_ascii() {
    let req = request(None, vec![("x-name", "caf\u{e9}"), ("x-tab", "a\tb")]);
    match header(&req, "x-name") {
        Err(ExtractHeaderError::InvalidHeader { name, .. }) => assert_eq!(name, "x-name"),
        _ => panic!("expected an invalid header"),
    }
    assert_eq!(header(&req, "X-Tab").ok(), Some("a\tb".to_string()));
}
