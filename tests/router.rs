use echo::error::{CallError, RouteErrorKind, RouterError};
use echo::http::{Method, Request, Uri};
use echo::method::{any, method, MethodRoute};
use echo::router::{Route, Router};
use echo::service::{Service, ServiceFn};

type Handler = fn(Request<()>) -> Result<String, String>;

fn users(_: Request<()>) -> Result<String, String> {
    Ok("users".to_string())
}

fn other(_: Request<()>) -> Result<String, String> {
    Ok("other".to_string())
}

fn echo_target(req: Request<()>) -> Result<String, String> {
    let params: Vec<String> = match &req.params {
        Some(p) => p.get_ref().iter().map(|(k, v)| format!("{k}={v}")).collect(),
        None => vec![],
    };
    Ok(format!(
        "{}|{}|{}",
        req.uri.path,
        req.uri.query.clone().unwrap_or_default(),
        params.join(",")
    ))
}

fn svc(f: Handler) -> ServiceFn<Handler> {
    ServiceFn::new(f)
}

fn request(m: Method, path: &str, query: Option<&str>) -> Request<()> {
    Request {
        method: m,
        uri: Uri {
            scheme: None,
            authority: None,
            path: path.to_string(),
            query: query.map(|q| q.to_string()),
        },
        headers: vec![],
        params: None,
        body: (),
    }
}

fn routed_kind(r: Result<String, CallError<String, ()>>) -> Option<RouteErrorKind> {
    match r {
        Err(CallError::Route(e)) => Some(e.kind()),
        _ => None,
    }
}

#[test]
fn exact_path_dispatches_to_handler() {
    let router = Router::new()
        .try_route("/users", method(svc(users), Method::Get))
        .unwrap()
        .try_route("/other", any(svc(other)))
        .unwrap();
    assert_eq!(router.call(request(Method::Get, "/users", None)).ok(), Some("users".to_string()));
    assert_eq!(router.call(request(Method::Post, "/other", None)).ok(), Some("other".to_string()));
}

#[test]
fn unmatched_path_is_not_found() {
    let router = Router::new().try_route("/users", method(svc(users), Method::Get)).unwrap();
    match router.call(request(Method::Get, "/nope", Some("a=1"))) {
        Err(CallError::Route(e)) => {
            assert_eq!(e.kind(), RouteErrorKind::NotFound);
            assert_eq!(e.to_string(), "Not Found");
            let back = e.into_request();
            assert_eq!(back.uri.path, "/nope");
            assert_eq!(back.uri.query.as_deref(), Some("a=1"));
        }
        _ => panic!("expected a routing error"),
    }
}

#[test]
fn empty_path_matches_root() {
    let router = Router::new().try_route("/", any(svc(users))).unwrap();
    assert_eq!(router.call(request(Method::Get, "", None)).ok(), Some("users".to_string()));
}

#[test]
fn unregistered_method_not_allowed() {
    let router = Router::new().try_route("/users", method(svc(users), Method::Get)).unwrap();
    let r = router.call(request(Method::Post, "/users", None));
    assert_eq!(routed_kind(r), Some(RouteErrorKind::MethodNotAllowed));
}

#[test]
fn head_falls_back_to_get() {
    let router = Router::new().try_route("/users", method(svc(users), Method::Get)).unwrap();
    assert_eq!(router.call(request(Method::Head, "/users", None)).ok(), Some("users".to_string()));
}

#[test]
fn head_prefers_its_own_entry() {
    let router = Router::new()
        .try_route("/users", method(svc(users), Method::Get))
        .unwrap()
        .try_route("/users", method(svc(other), Method::Head))
        .unwrap();
    assert_eq!(router.call(request(Method::Head, "/users", None)).ok(), Some("other".to_string()));
}

#[test]
fn any_fallback_answers_other_methods() {
    let router = Router::new()
        .try_route("/users", method(svc(users), Method::Get))
        .unwrap()
        .try_route("/users", any(svc(other)))
        .unwrap();
    assert_eq!(router.call(request(Method::Delete, "/users", None)).ok(), Some("other".to_string()));
    assert_eq!(router.call(request(Method::Get, "/users", None)).ok(), Some("users".to_string()));
}

#[test]
fn duplicate_method_conflicts() {
    let router = Router::new().try_route("/users", method(svc(users), Method::Get)).unwrap();
    match router.try_route("/users", method(svc(other), Method::Get)) {
        Err(RouterError::Conflict { path, message }) => {
            assert_eq!(path, "/users");
            assert_eq!(message, "conflict with previously registered `GET` HTTP method");
        }
        _ => panic!("expected a conflict"),
    }
}

#[test]
fn duplicate_any_conflicts() {
    let router = Router::new().try_route("/users", any(svc(users))).unwrap();
    match router.try_route("/users", any(svc(other))) {
        Err(RouterError::Conflict { path, message }) => {
            assert_eq!(path, "/users");
            assert_eq!(message, "conflict with previously registered any HTTP method");
        }
        _ => panic!("expected a conflict"),
    }
}

#[test]
fn merged_duplicate_method_conflicts() {
    let a = Router::new().try_route("/users", method(svc(users), Method::Get)).unwrap();
    let b = Router::new().try_route("/users", method(svc(other), Method::Get)).unwrap();
    match a.try_merge(b) {
        Err(RouterError::Conflict { path, message }) => {
            assert_eq!(path, "/users");
            assert_eq!(message, "conflict with previously registered `GET` HTTP method");
        }
        _ => panic!("expected a conflict"),
    }
}

#[test]
fn merge_keeps_both_routers() {
    let a = Router::new().try_route("/users", method(svc(users), Method::Get)).unwrap();
    let b = Router::new()
        .try_route("/users", method(svc(other), Method::Post))
        .unwrap()
        .try_route("/other", any(svc(other)))
        .unwrap();
    let router = a.try_merge(b).unwrap();
    assert_eq!(router.call(request(Method::Get, "/users", None)).ok(), Some("users".to_string()));
    assert_eq!(router.call(request(Method::Post, "/users", None)).ok(), Some("other".to_string()));
    assert_eq!(router.call(request(Method::Get, "/other", None)).ok(), Some("other".to_string()));
}

#[test]
fn route_and_scope_on_one_path_conflict() {
    let router = Router::new().try_route("/api/*", any(svc(users))).unwrap();
    match router.try_scope("/api", any(svc(other))) {
        Err(RouterError::Conflict { path, message }) => {
            assert_eq!(path, "/api/*__private__tail_param");
            assert_eq!(message, "conflict with previously registered route");
        }
        _ => panic!("expected a conflict"),
    }
}

#[test]
fn relative_path_is_invalid() {
    match Router::<ServiceFn<Handler>>::new().try_route("users", any(svc(users))) {
        Err(RouterError::InvalidPath { path, message }) => {
            assert_eq!(path, "users");
            assert_eq!(message, "path must start with a `/`");
        }
        _ => panic!("expected an invalid path"),
    }
}

#[test]
fn scope_rewrites_path_and_keeps_query() {
    let router = Router::new().try_scope("/api", any(svc(echo_target))).unwrap();
    let r = router.call(request(Method::Get, "/api/users/5", Some("x=1")));
    assert_eq!(r.ok(), Some("/users/5|x=1|".to_string()));
}

#[test]
fn scope_with_trailing_slash() {
    let router = Router::new().try_scope("/api/", any(svc(echo_target))).unwrap();
    let r = router.call(request(Method::Get, "/api/users", None));
    assert_eq!(r.ok(), Some("/users||".to_string()));
}

#[test]
fn path_parameters_are_attached() {
    let router = Router::new().try_route("/users/:id", any(svc(echo_target))).unwrap();
    let r = router.call(request(Method::Get, "/users/42", None));
    assert_eq!(r.ok(), Some("/users/42||id=42".to_string()));
}

#[test]
fn static_segment_beats_parameter() {
    let router = Router::new()
        .try_route("/users/:id", any(svc(echo_target)))
        .unwrap()
        .try_route("/users/me", any(svc(users)))
        .unwrap();
    assert_eq!(router.call(request(Method::Get, "/users/me", None)).ok(), Some("users".to_string()));
    assert_eq!(
        router.call(request(Method::Get, "/users/7", None)).ok(),
        Some("/users/7||id=7".to_string())
    );
}

#[test]
fn trailing_star_captures_rest_privately() {
    let router = Router::new().try_route("/files/*", any(svc(echo_target))).unwrap();
    let r = router.call(request(Method::Get, "/files/a/b.txt", None));
    assert_eq!(r.ok(), Some("/files/a/b.txt||".to_string()));
}

#[test]
fn mount_registers_route() {
    let route = Route::new("/users".to_string(), method(svc(users), Method::Get));
    let router = Router::new().try_mount(route).unwrap();
    assert_eq!(router.call(request(Method::Get, "/users", None)).ok(), Some("users".to_string()));
}

#[test]
fn dispatch_twice_gives_same_decision() {
    let router = Router::new().try_scope("/api", any(svc(echo_target))).unwrap();
    let first = router.call(request(Method::Get, "/api/a", Some("q=2")));
    let second = router.call(request(Method::Get, "/api/a", Some("q=2")));
    assert_eq!(first.ok(), second.ok());
    let nf1 = routed_kind(router.call(request(Method::Get, "/zzz", None)));
    let nf2 = routed_kind(router.call(request(Method::Get, "/zzz", None)));
    assert_eq!(nf1, Some(RouteErrorKind::NotFound));
    assert_eq!(nf1, nf2);
}

#[test]
fn more_methods_share_one_service() {
    let route = MethodRoute::more(svc(users), vec![Method::Get, Method::Post]).add(Method::Put);
    let router = Router::new().try_route("/users", route).unwrap();
    for m in [Method::Get, Method::Post, Method::Put] {
        assert_eq!(router.call(request(m, "/users", None)).ok(), Some("users".to_string()));
    }
    let r = router.call(request(Method::Delete, "/users", None));
    assert_eq!(routed_kind(r), Some(RouteErrorKind::MethodNotAllowed));
}

#[test]
fn router_error_text() {
    let e = RouterError::Conflict { path: "/a".to_string(), message: "m".to_string() };
    assert_eq!(e.to_string(), "conflict path /a (m)");
    assert_eq!(RouterError::TooManyPath.to_string(), "too many path");
}

#[test]
fn method_names_round_trip() {
    for m in [Method::Get, Method::Head, Method::Post, Method::Put, Method::Delete, Method::Connect,
        Method::Options, Method::Patch, Method::Trace] {
        assert_eq!(Method::from_name(m.as_str()), Some(m));
    }
    assert_eq!(Method::from_name("get"), None);
}

#[test]
fn merge_into_same_paths_without_clash_succeeds() {
    let a = Router::new()
        .try_route("/users", method(svc(users), Method::Get))
        .unwrap()
        .try_route("/other", method(svc(other), Method::Get))
        .unwrap();
    let b = Router::new().try_route("/users", method(svc(other), Method::Post)).unwrap();
    let router = a.try_merge(b).unwrap();
    assert_eq!(router.call(request(Method::Get, "/users", None)).ok(), Some("users".to_string()));
    assert_eq!(router.call(request(Method::Post, "/users", None)).ok(), Some("other".to_string()));
    assert_eq!(router.call(request(Method::Get, "/other", None)).ok(), Some("other".to_string()));
}

#[test]
fn merged_route_and_scope_conflict() {
    let a = Router::new().try_route("/api/*", any(svc(users))).unwrap();
    let b = Router::new().try_scope("/api", any(svc(other))).unwrap();
    match a.try_merge(b) {
        Err(RouterError::Conflict { path, message }) => {
            assert_eq!(path, "/api/*__private__tail_param");
            assert_eq!(message, "conflict with previously registered route");
        }
        _ => panic!("expected a conflict"),
    }
}

#[test]
fn non_ascii_path_is_invalid() {
    match Router::<ServiceFn<Handler>>::new().try_route("/caf\u{e9}", any(svc(users))) {
        Err(RouterError::InvalidPath { path, message }) => {
            assert_eq!(path, "/caf\u{e9}");
            assert_eq!(message, "path must be ASCII");
        }
        _ => panic!("expected an invalid path"),
    }
}

#[test]
fn parameter_names_clash_as_conflict() {
    let router = Router::new()
        .try_route("/:a/x", any(svc(users)))
        .unwrap()
        .try_route("/:a/y", any(svc(other)))
        .unwrap();
    assert!(matches!(
        router.try_route("/:b/x", any(svc(other))),
        Err(RouterError::Conflict { .. })
    ));
}
