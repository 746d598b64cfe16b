//! Response bodies that carry their own content type.
use crate::http::Response;
use vstd::prelude::*;

verus! {

pub open spec fn html_type() -> Seq<char> {
    "text/html; charset=utf-8"@
}

pub open spec fn json_type() -> Seq<char> {
    "application/json"@
}

pub open spec fn event_stream_type() -> Seq<char> {
    "text/event-stream"@
}

/// Relies on `mime::TEXT_HTML_UTF_8`: its text is `text/html; charset=utf-8`.
#[verifier::external_body]
pub(crate) fn mime_html() -> (r: String)
    ensures
        r@ == html_type(),
{
    mime::TEXT_HTML_UTF_8.as_ref().to_owned()
}

/// Relies on `mime::APPLICATION_JSON`: its text is `application/json`.
#[verifier::external_body]
pub(crate) fn mime_json() -> (r: String)
    ensures
        r@ == json_type(),
{
    mime::APPLICATION_JSON.as_ref().to_owned()
}

/// Relies on `mime::TEXT_EVENT_STREAM`: its text is `text/event-stream`.
#[verifier::external_body]
pub(crate) fn mime_event_stream() -> (r: String)
    ensures
        r@ == event_stream_type(),
{
    mime::TEXT_EVENT_STREAM.as_ref().to_owned()
}

/// An HTML body.
#[derive(Debug, Clone, Copy)]
pub struct Html<B>(pub B);

impl<B> Html<B> {
    /// The content type and the body.
    pub fn into_parts(self) -> (r: (String, B))
        ensures
            r.0@ == html_type(),
            r.1 == self.0,
    {
        (mime_html(), self.0)
    }
}

impl<B> Html<B> {
    /// A `200 OK` response with the HTML content type.
    pub fn into_response(self) -> (r: Response<B>)
        ensures
            r.status == 200,
            r.headers@.len() == 1,
            r.headers@[0].0@ == "content-type"@,
            r.headers@[0].1@ == html_type(),
            r.body == self.0,
    {
        let (content_type, body) = self.into_parts();
        let mut headers: Vec<(String, String)> = Vec::new();
        headers.push((String::from_str("content-type"), content_type));
        Response { status: 200, headers, body }
    }
}

/// A value sent as a JSON body.
#[derive(Debug, Clone, Copy)]
pub struct Json<T>(pub T);

impl<T> Json<T> {
    /// The content type of the body.
    pub fn content_type(&self) -> (r: String)
        ensures
            r@ == json_type(),
    {
        mime_json()
    }
}

} // verus!
