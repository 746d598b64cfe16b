use echo::middleware::{from_fn, CatchErrorMiddleware};
use echo::service::{
    middleware_fn, service_fn, ArcService, BoxCloneService, BoxService, LocalBoxCloneService,
    LocalBoxService, Middleware, RcService, Service,
};
use echo::combinators::ServiceExt;

fn double(x: u32) -> Result<u32, String> {
    if x > 1000 {
        Err(format!("too big: {x}"))
    } else {
        Ok(x * 2)
    }
}

#[test]
fn erased_services_answer_like_the_plain_service() {
    let plain = service_fn(double);
    let boxed = BoxService::new(service_fn(double));
    let cloned = BoxCloneService::new(service_fn(double));
    let shared = ArcService::new(service_fn(double));
    let local = LocalBoxService::new(service_fn(double));
    let local_cloned = LocalBoxCloneService::new(service_fn(double));
    let counted = RcService::new(service_fn(double));
    for x in [0u32, 7, 1000, 1001] {
        let want = plain.call(x);
        assert_eq!(boxed.call(x), want);
        assert_eq!(cloned.call(x), want);
        assert_eq!(cloned.clone().call(x), want);
        assert_eq!(shared.call(x), want);
        assert_eq!(shared.clone().call(x), want);
        assert_eq!(local.call(x), want);
        assert_eq!(local_cloned.clone().call(x), want);
        assert_eq!(counted.clone().call(x), want);
    }
}

#[test]
fn ext_builders_wrap_the_service() {
    assert_eq!(service_fn(double).boxed().call(3), Ok(6));
    assert_eq!(service_fn(double).boxed_arc().call(3), Ok(6));
    assert_eq!(service_fn(double).boxed_rc().call(3), Ok(6));
    assert_eq!(service_fn(double).boxed_clone().call(3), Ok(6));
    assert_eq!(service_fn(double).boxed_local().call(3), Ok(6));
    assert_eq!(service_fn(double).boxed_clone_local().call(3), Ok(6));
}

#[test]
fn combinators_transform_around_the_call() {
    let s = service_fn(double).map_request(|x: u32| x + 1);
    assert_eq!(s.call(1), Ok(4));
    let s = service_fn(double).map_response(|y: u32| y + 1);
    assert_eq!(s.call(1), Ok(3));
    let s = service_fn(double).map_err(|e: String| e.len());
    assert_eq!(s.call(2000), Err(13));
    let s = service_fn(double).and_then(|y: u32| if y > 10 { Err("big".to_string()) } else { Ok(y) });
    assert_eq!(s.call(2), Ok(4));
    assert_eq!(s.call(6), Err("big".to_string()));
    assert_eq!(s.call(2000), Err("too big: 2000".to_string()));
    let s = service_fn(double).then(|r: Result<u32, String>| -> Result<bool, ()> { Ok(r.is_ok()) });
    assert_eq!(s.call(2000), Ok(false));
    let s = service_fn(double).map_result(|r: Result<u32, String>| -> Result<u32, ()> { r.map_err(|_| ()) });
    assert_eq!(s.call(2000), Err(()));
}

#[test]
fn catch_error_recovers() {
    let s = service_fn(double).with(CatchErrorMiddleware::new(|_e: String| -> Result<u32, ()> { Ok(0) }));
    assert_eq!(s.call(5), Ok(10));
    assert_eq!(s.call(5000), Ok(0));
}

#[test]
fn from_fn_sees_inner_service() {
    let m = from_fn(|x: u32, inner: &echo::service::ServiceFn<fn(u32) -> Result<u32, String>>| {
        inner.call(x + 10)
    });
    let s = m.transform(service_fn(double as fn(u32) -> Result<u32, String>));
    assert_eq!(s.call(1), Ok(22));
}

#[test]
fn middleware_fn_transforms() {
    let m = middleware_fn(|s: echo::service::ServiceFn<fn(u32) -> Result<u32, String>>| ArcService::new(s));
    let s = m.transform(service_fn(double as fn(u32) -> Result<u32, String>));
    assert_eq!(s.call(4), Ok(8));
}
