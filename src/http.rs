use crate::params::PathParams;
use crate::text::{concat, strip_leading_slash, strip_slash};
use vstd::prelude::*;

verus! {

/// The HTTP request methods the router dispatches on.
#[derive(Clone, Copy, Debug, PartialEq, Eq, Structural, Hash)]
pub enum Method {
    Get,
    Head,
    Post,
    Put,
    Delete,
    Connect,
    Options,
    Patch,
    Trace,
}

impl Method {
    /// The method's name, in capitals.
    pub open spec fn name(self) -> Seq<char> {
        match self {
            Method::Get => "GET"@,
            Method::Head => "HEAD"@,
            Method::Post => "POST"@,
            Method::Put => "PUT"@,
            Method::Delete => "DELETE"@,
            Method::Connect => "CONNECT"@,
            Method::Options => "OPTIONS"@,
            Method::Patch => "PATCH"@,
            Method::Trace => "TRACE"@,
        }
    }

    /// The method's name, in capitals.
    pub fn as_str(&self) -> (r: &'static str)
        ensures
            r@ == self.name(),
    {
        match self {
            Method::Get => "GET",
            Method::Head => "HEAD",
            Method::Post => "POST",
            Method::Put => "PUT",
            Method::Delete => "DELETE",
            Method::Connect => "CONNECT",
            Method::Options => "OPTIONS",
            Method::Patch => "PATCH",
            Method::Trace => "TRACE",
        }
    }

    /// The method named `s`, matched exactly.
    pub fn from_name(s: &str) -> (r: Option<Method>)
        ensures
            r matches Some(m) ==> m.name() == s@,
            r is None ==> forall|m: Method| #[trigger] m.name() != s@,
    {
        let all = [
            Method::Get,
            Method::Head,
            Method::Post,
            Method::Put,
            Method::Delete,
            Method::Connect,
            Method::Options,
            Method::Patch,
            Method::Trace,
        ];
        let key = String::from_str(s);
        let mut i: usize = 0;
        while i < 9
            invariant
                i <= 9,
                key@ == s@,
                all@ == seq![
                    Method::Get,
                    Method::Head,
                    Method::Post,
                    Method::Put,
                    Method::Delete,
                    Method::Connect,
                    Method::Options,
                    Method::Patch,
                    Method::Trace,
                ],
                forall|j: int| 0 <= j < i ==> #[trigger] all@[j].name() != s@,
            decreases 9 - i,
        {
            let name = String::from_str(all[i].as_str());
            if name == key {
                return Some(all[i]);
            }
            i = i + 1;
        }
        proof {
            assert forall|m: Method| #[trigger] m.name() != s@ by {
                match m {
                    Method::Get => assert(all@[0] == m),
                    Method::Head => assert(all@[1] == m),
                    Method::Post => assert(all@[2] == m),
                    Method::Put => assert(all@[3] == m),
                    Method::Delete => assert(all@[4] == m),
                    Method::Connect => assert(all@[5] == m),
                    Method::Options => assert(all@[6] == m),
                    Method::Patch => assert(all@[7] == m),
                    Method::Trace => assert(all@[8] == m),
                }
            }
        }
        None
    }
}

/// A request target split into its parts.
#[derive(Clone, Debug)]
pub struct Uri {
    pub scheme: Option<String>,
    pub authority: Option<String>,
    pub path: String,
    pub query: Option<String>,
}

/// An inbound request: method, target, headers, the path parameters
/// attached by routing, and a body.
#[derive(Debug)]
pub struct Request<B> {
    pub method: Method,
    pub uri: Uri,
    pub headers: Vec<(String, String)>,
    pub params: Option<PathParams>,
    pub body: B,
}

/// An outbound response: status code, headers and a body.
#[derive(Debug)]
pub struct Response<B> {
    pub status: u16,
    pub headers: Vec<(String, String)>,
    pub body: B,
}

/// Points `request` at `path`, read as relative to the root, keeping the
/// scheme, authority and query.
pub fn replace_request_path<B>(request: &mut Request<B>, path: &str)
    ensures
        final(request).uri.path@ == "/"@ + strip_slash(path@),
        final(request).uri.query == old(request).uri.query,
        final(request).uri.scheme == old(request).uri.scheme,
        final(request).uri.authority == old(request).uri.authority,
        final(request).method == old(request).method,
        final(request).headers == old(request).headers,
        final(request).params == old(request).params,
        final(request).body == old(request).body,
{
    let rest = strip_leading_slash(path);
    request.uri.path = concat("/", rest);
}

} // verus!
