use std::time::Duration;

use echo::sse::{Event, KeepAlive};

fn millis(d: Duration) -> u64 {
    d.as_millis() as u64
}

#[test]
fn comment() {
    let event = Event::new().comment("xx");
    assert_eq!(event.to_string(), ": xx\n\n");
}

#[test]
fn retry() {
    let event = Event::new().retry(millis(Duration::from_secs(1)));
    assert_eq!(event.to_string(), "retry: 1000\n\n");
}

#[test]
fn id() {
    let event = Event::new().id("1");
    assert_eq!(event.to_string(), "id: 1\n\n");
}

#[test]
fn event() {
    let event = Event::new().event("message");
    assert_eq!(event.to_string(), "event: message\n\n");
}

#[test]
fn data() {
    let event = Event::new().data("hello\nworld\n");
    assert_eq!(event.to_string(), "data: hello\ndata: world\n\n");
}

#[test]
fn all() {
    let event = Event::new()
        .comment("xx")
        .retry(millis(Duration::from_secs(1)))
        .id("1")
        .event("message")
        .data("hello\nworld\n");
    assert_eq!(
        event.to_string(),
        ": xx\nretry: 1000\nid: 1\nevent: message\ndata: hello\ndata: world\n\n"
    );
}

#[test]
fn data_lines_drop_carriage_returns() {
    let event = Event::new().data("a\r\nb\r");
    assert_eq!(event.to_string(), "data: a\ndata: b\r\n\n");
}

#[test]
fn empty_event_is_blank_line() {
    assert_eq!(Event::new().to_string(), "\n");
    assert_eq!(Event::new().retry(0).to_string(), "retry: 0\n\n");
    assert_eq!(Event::new().data("").to_string(), "\n");
}

#[test]
fn keep_alive_event_is_comment() {
    let k = KeepAlive::new().text("ping").interval(5000);
    assert_eq!(k.interval, 5000);
    assert_eq!(k.event().to_string(), ": ping\n\n");
    assert_eq!(KeepAlive::default().interval, 15000);
}

#[test]
fn sse_headers_and_keep_alive() {
    let sse = echo::sse::Sse::new(()).keep_alive(KeepAlive::new());
    let headers = sse.headers();
    assert_eq!(headers[0], ("content-type".to_string(), "text/event-stream".to_string()));
    assert_eq!(headers[1], ("cache-control".to_string(), "no-cache".to_string()));
    assert!(sse.keep_alive.is_some());
}

#[test]
fn html_and_json_content_types() {
    let r = echo::response::Html(b"<p>".to_vec()).into_response();
    assert_eq!(r.status, 200);
    assert_eq!(r.headers, vec![("content-type".to_string(), "text/html; charset=utf-8".to_string())]);
    assert_eq!(r.body, b"<p>".to_vec());
    assert_eq!(echo::response::Json(1u8).content_type(), "application/json");
}
