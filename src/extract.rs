//! Reading values out of a request: path parameters and headers.
use crate::http::Request;
use crate::params::{pairs_view, PathParams};
use crate::text::concat3;
use vstd::prelude::*;

verus! {

/// The value of the last parameter named `name`.
pub open spec fn last_value(ps: Seq<(Seq<char>, Seq<char>)>, name: Seq<char>) -> Option<Seq<char>>
    decreases ps.len(),
{
    if ps.len() == 0 {
        None
    } else if ps.last().0 == name {
        Some(ps.last().1)
    } else {
        last_value(ps.drop_last(), name)
    }
}

/// The path parameters attached to `request`, as text.
pub open spec fn params_of<B>(request: &Request<B>) -> Seq<(Seq<char>, Seq<char>)> {
    match request.params {
        Some(p) => pairs_view(p.0@),
        None => Seq::empty(),
    }
}

/// The path parameters attached to a request, if routing attached any.
pub fn extension<B>(request: &Request<B>) -> (r: Option<&PathParams>)
    ensures
        r == (match request.params {
            Some(p) => Some(&p),
            None => None,
        }),
{
    request.params.as_ref()
}

/// The path parameters attached to a request, for changing them.
pub fn extension_mut<B>(request: &mut Request<B>) -> (r: Option<&mut PathParams>)
    ensures
        old(request).params is None ==> r is None && *final(request) == *old(request),
        old(request).params matches Some(p) ==> r matches Some(q) && *q == p && final(request).params
            == Some(*final(q)),
        final(request).method == old(request).method,
        final(request).uri == old(request).uri,
        final(request).headers == old(request).headers,
        final(request).body == old(request).body,
{
    request.params.as_mut()
}

/// The value of the path parameter `name`; of several, the last.
pub fn find<'a, B>(request: &'a Request<B>, name: &str) -> (r: Option<&'a String>)
    ensures
        (match r {
            Some(v) => Some(v@),
            None => None,
        }) == last_value(params_of(request), name@),
{
    let params = match &request.params {
        Some(p) => p.get_ref(),
        None => {
            return None;
        },
    };
    let key = String::from_str(name);
    let mut i: usize = params.len();
    assert(params@.take(i as int) =~= params@);
    while i > 0
        invariant
            i <= params@.len(),
            key@ == name@,
            pairs_view(params@) == params_of(request),
            last_value(params_of(request), name@) == last_value(pairs_view(params@.take(i as int)), name@),
        decreases i,
    {
        let ghost prefix = pairs_view(params@.take(i as int));
        assert(prefix.drop_last() =~= pairs_view(params@.take(i - 1)));
        let (k, v) = &params[i - 1];
        if *k == key {
            return Some(v);
        }
        i = i - 1;
    }
    assert(pairs_view(params@.take(0)) =~= Seq::<(Seq<char>, Seq<char>)>::empty());
    None
}

/// Why a path parameter could not be read.
#[derive(Debug)]
pub enum ExtractPathError {
    MissingParam { name: String },
    InvalidParam { name: String, message: String },
}

impl ExtractPathError {
    pub open spec fn text(&self) -> Seq<char> {
        match self {
            ExtractPathError::MissingParam { name } => "missing path param `"@ + name@ + "`"@,
            ExtractPathError::InvalidParam { name, message } => "invalid path param `"@ + name@
                + "` ("@ + message@ + ")"@,
        }
    }

    /// The text shown for this error.
    pub fn to_string(&self) -> (r: String)
        ensures
            r@ == self.text(),
    {
        match self {
            ExtractPathError::MissingParam { name } => concat3("missing path param `", name.as_str(), "`"),
            ExtractPathError::InvalidParam { name, message } => {
                let mut r = concat3("invalid path param `", name.as_str(), "` (");
                r.append(message.as_str());
                r.append(")");
                r
            },
        }
    }
}

/// The text of the path parameter `name`, or `MissingParam`.
pub fn path<B>(request: &Request<B>, name: &str) -> (r: Result<String, ExtractPathError>)
    ensures
        last_value(params_of(request), name@) matches Some(v) ==> (r matches Ok(s) && s@ == v),
        last_value(params_of(request), name@) is None ==> (r matches Err(
            ExtractPathError::MissingParam { name: n },
        ) && n@ == name@),
{
    match find(request, name) {
        Some(v) => Ok(v.clone()),
        None => Err(ExtractPathError::MissingParam { name: String::from_str(name) }),
    }
}

/// Whether `c` is an ASCII capital letter.
pub open spec fn is_upper(c: char) -> bool {
    'A' <= c <= 'Z'
}

/// Whether two characters are equal, ignoring ASCII case.
pub open spec fn same_letter(a: char, b: char) -> bool {
    a == b || (is_upper(a) && a as u32 + 32 == b as u32) || (is_upper(b) && b as u32 + 32 == a as u32)
}

/// Whether two names are equal, ignoring ASCII case.
pub open spec fn same_name(a: Seq<char>, b: Seq<char>) -> bool {
    a.len() == b.len() && forall|i: int| 0 <= i < a.len() ==> same_letter(a[i], b[i])
}

pub(crate) fn name_eq(a: &str, b: &str) -> (r: bool)
    ensures
        r == same_name(a@, b@),
{
    let n = a.unicode_len();
    if n != b.unicode_len() {
        return false;
    }
    let mut i: usize = 0;
    while i < n
        invariant
            n == a@.len(),
            n == b@.len(),
            i <= n,
            forall|j: int| 0 <= j < i ==> same_letter(a@[j], b@[j]),
        decreases n - i,
    {
        let x = a.get_char(i);
        let y = b.get_char(i);
        let same = x == y || ('A' <= x && x <= 'Z' && x as u32 + 32 == y as u32) || ('A' <= y && y
            <= 'Z' && y as u32 + 32 == x as u32);
        if !same {
            return false;
        }
        i = i + 1;
    }
    true
}

/// Whether `c` may stand in a header name.
pub open spec fn is_token_char(c: char) -> bool {
    ('a' <= c <= 'z') || ('A' <= c <= 'Z') || ('0' <= c <= '9') || c == '!' || c == '#' || c == '$'
        || c == '%' || c == '&' || c == '\'' || c == '*' || c == '+' || c == '-' || c == '.' || c
        == '^' || c == '_' || c == '`' || c == '|' || c == '~'
}

/// Whether `s` is a well-formed header name: one or more token characters.
pub open spec fn is_header_name(s: Seq<char>) -> bool {
    s.len() > 0 && forall|i: int| 0 <= i < s.len() ==> is_token_char(s[i])
}

fn check_header_name(s: &str) -> (r: bool)
    ensures
        r == is_header_name(s@),
{
    let n = s.unicode_len();
    if n == 0 {
        return false;
    }
    let mut i: usize = 0;
    while i < n
        invariant
            n == s@.len(),
            i <= n,
            forall|j: int| 0 <= j < i ==> is_token_char(s@[j]),
        decreases n - i,
    {
        let c = s.get_char(i);
        let ok = ('a' <= c && c <= 'z') || ('A' <= c && c <= 'Z') || ('0' <= c && c <= '9') || c
            == '!' || c == '#' || c == '$' || c == '%' || c == '&' || c == '\'' || c == '*' || c
            == '+' || c == '-' || c == '.' || c == '^' || c == '_' || c == '`' || c == '|' || c
            == '~';
        if !ok {
            return false;
        }
        i = i + 1;
    }
    true
}

/// The index of the first header named `name`, ignoring case.
pub open spec fn first_header(headers: Seq<(String, String)>, name: Seq<char>) -> Option<int> {
    if exists|i: int| 0 <= i < headers.len() && same_name(#[trigger] headers[i].0@, name) {
        Some(
            choose|i: int|
                0 <= i < headers.len() && same_name(#[trigger] headers[i].0@, name) && forall|j: int|
                    0 <= j < i ==> !same_name(#[trigger] headers[j].0@, name),
        )
    } else {
        None
    }
}

/// Why a header could not be read.
#[derive(Debug)]
pub enum ExtractHeaderError {
    MissingHeader { name: String },
    InvalidHeader { name: String, message: String },
    InvalidHeaderName { message: String },
}

impl ExtractHeaderError {
    pub open spec fn text(&self) -> Seq<char> {
        match self {
            ExtractHeaderError::MissingHeader { name } => "missing request header `"@ + name@ + "`"@,
            ExtractHeaderError::InvalidHeader { name, message } => "invalid request header `"@ + name@
                + "` ("@ + message@ + ")"@,
            ExtractHeaderError::InvalidHeaderName { message } => "invalid request header name ("@
                + message@ + ")"@,
        }
    }

    /// The text shown for this error.
    pub fn to_string(&self) -> (r: String)
        ensures
            r@ == self.text(),
    {
        match self {
            ExtractHeaderError::MissingHeader { name } => concat3(
                "missing request header `",
                name.as_str(),
                "`",
            ),
            ExtractHeaderError::InvalidHeader { name, message } => {
                let mut r = concat3("invalid request header `", name.as_str(), "` (");
                r.append(message.as_str());
                r.append(")");
                r
            },
            ExtractHeaderError::InvalidHeaderName { message } => concat3(
                "invalid request header name (",
                message.as_str(),
                ")",
            ),
        }
    }
}

/// Whether `c` may stand in a header value read as text: visible ASCII,
/// space or tab.
pub open spec fn is_visible_char(c: char) -> bool {
    c == '\t' || (' ' <= c && c <= '~')
}

/// Whether every character of `v` is visible ASCII, space or tab.
pub open spec fn visible_ascii(v: Seq<char>) -> bool {
    forall|i: int| 0 <= i < v.len() ==> is_visible_char(v[i])
}

fn check_visible(s: &str) -> (r: bool)
    ensures
        r == visible_ascii(s@),
{
    let n = s.unicode_len();
    let mut i: usize = 0;
    while i < n
        invariant
            n == s@.len(),
            i <= n,
            forall|j: int| 0 <= j < i ==> is_visible_char(s@[j]),
        decreases n - i,
    {
        let c = s.get_char(i);
        if !(c == '\t' || (' ' <= c && c <= '~')) {
            return false;
        }
        i = i + 1;
    }
    true
}

/// The value of the first header named `name`, ignoring ASCII case, as it
/// stands.
pub fn first_header_value<'a, B>(request: &'a Request<B>, name: &str) -> (r: Option<&'a String>)
    ensures
        match first_header(request.headers@, name@) {
            Some(i) => r == Some(&request.headers@[i].1),
            None => r is None,
        },
{
    let mut i: usize = 0;
    while i < request.headers.len()
        invariant
            i <= request.headers@.len(),
            forall|j: int| 0 <= j < i ==> !same_name(#[trigger] request.headers@[j].0@, name@),
        decreases request.headers@.len() - i,
    {
        let (k, v) = &request.headers[i];
        if name_eq(k.as_str(), name) {
            proof {
                let c = choose|c: int|
                    0 <= c < request.headers@.len() && same_name(#[trigger] request.headers@[c].0@, name@)
                        && forall|j: int| 0 <= j < c ==> !same_name(#[trigger] request.headers@[j].0@, name@);
                assert(0 <= i < request.headers@.len() && same_name(request.headers@[i as int].0@, name@)
                    && forall|j: int| 0 <= j < i ==> !same_name(#[trigger] request.headers@[j].0@, name@));
                if c < i {
                } else if c > i {
                }
                assert(c == i);
            }
            return Some(v);
        }
        i = i + 1;
    }
    None
}

/// The value of the first header named `name`, ignoring ASCII case. A value
/// that is not visible ASCII (space and tab allowed) cannot be read as text
/// and gives `InvalidHeader`.
pub fn header<B>(request: &Request<B>, name: &str) -> (r: Result<String, ExtractHeaderError>)
    ensures
        !is_header_name(name@) ==> r matches Err(ExtractHeaderError::InvalidHeaderName { .. }),
        is_header_name(name@) ==> match first_header(request.headers@, name@) {
            Some(i) => if visible_ascii(request.headers@[i].1@) {
                r matches Ok(v) && v@ == request.headers@[i].1@
            } else {
                r matches Err(ExtractHeaderError::InvalidHeader { name: n, .. }) && n@ == name@
            },
            None => r matches Err(ExtractHeaderError::MissingHeader { name: n }) && n@ == name@,
        },
{
    if !check_header_name(name) {
        return Err(
            ExtractHeaderError::InvalidHeaderName { message: String::from_str("invalid header name") },
        );
    }
    match first_header_value(request, name) {
        Some(v) => if check_visible(v.as_str()) {
            Ok(v.clone())
        } else {
            Err(
                ExtractHeaderError::InvalidHeader {
                    name: String::from_str(name),
                    message: String::from_str("failed to convert header to a str"),
                },
            )
        },
        None => Err(ExtractHeaderError::MissingHeader { name: String::from_str(name) }),
    }
}

} // verus!
