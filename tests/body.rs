use echo::body::{Body, BodyExt, Collect, Frame, Frames, SizeHint};
use echo::limited::{LengthLimitError, LimitedError};

fn chunks(parts: &[&[u8]]) -> Frames {
    Frames::from_chunks(parts.iter().map(|p| p.to_vec()).collect())
}

#[test]
fn collect_three_chunks_in_order() {
    let body = chunks(&[b"ab", b"cd", b"ef"]);
    let bytes = Collect::new(body).bytes().unwrap();
    assert_eq!(bytes, b"abcdef".to_vec());
}

#[test]
fn collect_empty_body() {
    let bytes = ().collect().bytes().unwrap();
    assert!(bytes.is_empty());
    let bytes = Vec::<u8>::new().collect().bytes().unwrap();
    assert!(bytes.is_empty());
}

#[test]
fn collect_skips_trailers() {
    let body = Frames::new(vec![
        Frame::data(b"ab".to_vec()),
        Frame::trailers(vec![("x-check".to_string(), "1".to_string())]),
        Frame::data(b"c".to_vec()),
    ]);
    assert_eq!(body.collect().bytes().unwrap(), b"abc".to_vec());
}

#[test]
fn collect_single_and_two_chunks() {
    assert_eq!(chunks(&[b"xyz"]).collect().bytes().unwrap(), b"xyz".to_vec());
    assert_eq!(chunks(&[b"x", b"yz"]).collect().bytes().unwrap(), b"xyz".to_vec());
    assert_eq!(b"hello".to_vec().collect().bytes().unwrap(), b"hello".to_vec());
}

#[test]
fn data_skips_trailers_and_ends() {
    let mut body = Frames::new(vec![
        Frame::trailers(vec![]),
        Frame::data(b"a".to_vec()),
    ]);
    assert_eq!(body.data().unwrap().ok(), Some(b"a".to_vec()));
    assert!(body.data().is_none());
    assert!(body.next().is_none());
}

#[test]
fn limit_rejects_oversized_chunk() {
    let mut body = b"abcdef".to_vec().limit(5);
    match body.poll_frame() {
        Some(Err(LimitedError::LengthLimit(e))) => {
            assert_eq!(e, LengthLimitError);
            assert_eq!(e.to_string(), "length limit exceeded");
        }
        _ => panic!("expected the length limit error"),
    }
}

#[test]
fn limit_passes_exact_size() {
    let mut body = b"abcde".to_vec().limit(5);
    match body.poll_frame() {
        Some(Ok(frame)) => assert_eq!(frame.into_data().ok(), Some(b"abcde".to_vec())),
        _ => panic!("expected the frame"),
    }
    assert!(body.poll_frame().is_none());
}

#[test]
fn limit_counts_across_chunks() {
    let mut body = chunks(&[b"abc", b"def"]).limit(5);
    assert!(matches!(body.poll_frame(), Some(Ok(_))));
    assert!(matches!(body.poll_frame(), Some(Err(LimitedError::LengthLimit(_)))));
}

#[test]
fn limit_clamps_size_hint() {
    let hint = b"abcdef".to_vec().limit(4).size_hint();
    assert_eq!((hint.lower(), hint.upper()), (4, Some(4)));
    let hint = b"ab".to_vec().limit(4).size_hint();
    assert_eq!((hint.lower(), hint.upper()), (2, Some(2)));
    let hint = ().limit(3).size_hint();
    assert_eq!((hint.lower(), hint.upper()), (0, Some(0)));
}

#[test]
fn primitive_hints_are_exact() {
    assert_eq!(b"abc".to_vec().size_hint().exact(), Some(3));
    assert_eq!(().size_hint().exact(), Some(0));
    assert_eq!(chunks(&[b"ab", b"cde"]).size_hint().exact(), Some(5));
}

#[test]
fn size_hint_setters() {
    let mut hint = SizeHint::new();
    assert_eq!((hint.lower(), hint.upper(), hint.exact()), (0, None, None));
    hint.set_upper(10);
    hint.set_lower(3);
    assert_eq!((hint.lower(), hint.upper(), hint.exact()), (3, Some(10), None));
    hint.set_exact(7);
    assert_eq!(hint.exact(), Some(7));
    assert_eq!(SizeHint::with_exact(9).exact(), Some(9));
}

#[test]
fn vec_body_yields_once() {
    let mut body = b"ab".to_vec();
    assert!(matches!(body.poll_frame(), Some(Ok(Frame::Data(_)))));
    assert!(body.poll_frame().is_none());
    assert!(body.poll_frame().is_none());
}

#[test]
fn text_body_yields_utf8_bytes() {
    use_full();
}

fn use_full() {
    let mut body = echo::body::Full::from_text("héllo");
    assert_eq!(body.size_hint().exact(), Some(6));
    assert!(matches!(body.poll_frame(), Some(Ok(Frame::Data(d))) if d == "héllo".as_bytes().to_vec()));
    assert!(body.poll_frame().is_none());
    assert!(echo::body::Full::from_text("").poll_frame().is_none());
    assert_eq!(echo::body::Full::new(b"ab".to_vec()).collect().bytes().unwrap(), b"ab".to_vec());
}

#[test]
fn limited_hint_never_exceeds_budget() {
    let hint = chunks(&[b"abc", b"def"]).limit(100).size_hint();
    assert_eq!((hint.lower(), hint.upper()), (6, Some(6)));
    let hint = echo::stream::StreamBody::new(echo::stream::iter(Vec::<Result<Frame, String>>::new()))
        .limit(7)
        .size_hint();
    assert_eq!((hint.lower(), hint.upper()), (0, Some(7)));
}
