//! The path trie: a `matchit` router from path patterns to route ids.
use matchit::Router as PathTrie;
use crate::params::pairs_view;
use vstd::prelude::*;

verus! {

/// `matchit::Router`, the radix trie of path patterns, held opaque.
#[verifier::external_type_specification]
#[verifier::external_body]
#[verifier::reject_recursive_types(T)]
pub struct ExTrie<T>(PathTrie<T>);

/// `matchit::InsertError`, why the trie refused a pattern, held opaque.
#[verifier::external_type_specification]
#[verifier::external_body]
pub struct ExInsertError(matchit::InsertError);

/// The patterns a trie holds, each with its route id.
pub uninterp spec fn trie_routes(t: PathTrie<u32>) -> Map<Seq<char>, u32>;

/// What a lookup of `path` in `t` finds: a route id and the captured
/// parameters, in pattern order.
pub uninterp spec fn trie_match(t: PathTrie<u32>, path: Seq<char>) -> Option<(u32, Seq<(Seq<char>, Seq<char>)>)>;

/// Whether the trie `t` takes the pattern `route`.
pub uninterp spec fn trie_accepts(t: PathTrie<u32>, route: Seq<char>) -> bool;

/// Whether every character of `p` is ASCII.
pub open spec fn is_ascii_text(p: Seq<char>) -> bool {
    forall|i: int| 0 <= i < p.len() ==> (p[i] as u32) < 128
}

/// A pattern without parameter or catch-all segments.
pub open spec fn is_static(p: Seq<char>) -> bool {
    forall|i: int| 0 <= i < p.len() ==> p[i] != ':' && p[i] != '*'
}

/// How many `:` parameters a pattern names, at most.
pub open spec fn colon_count(p: Seq<char>) -> nat
    decreases p.len(),
{
    if p.len() == 0 {
        0
    } else {
        colon_count(p.drop_last()) + if p.last() == ':' { 1nat } else { 0nat }
    }
}

/// The most `:` parameters a single pattern may name.
pub const MAX_PARAMS: usize = 25;

/// A match found in the trie: the route id and the captured parameters.
pub struct TrieMatch {
    pub id: u32,
    pub params: Vec<(String, String)>,
}

impl TrieMatch {
    pub open spec fn view(&self) -> (u32, Seq<(Seq<char>, Seq<char>)>) {
        (self.id, pairs_view(self.params@))
    }
}

/// Whether a match of `path` with route id `id` and `n` parameters comes from
/// a held pattern: a static one only where it is `path` itself.
pub open spec fn held_match(routes: Map<Seq<char>, u32>, path: Seq<char>, id: u32, n: nat) -> bool {
    exists|p: Seq<char>|
        #[trigger] routes.contains_key(p) && routes[p] == id && (is_static(p) ==> p == path && n == 0)
}

/// Relies on `matchit::Router::new`: a router that holds no route.
#[verifier::external_body]
pub(crate) fn trie_new() -> (r: PathTrie<u32>)
    ensures
        trie_routes(r).dom().is_empty(),
{
    PathTrie::new()
}

/// Relies on `matchit::Router::insert`: whether it takes a pattern depends on
/// the trie and the pattern alone, and on success the pattern is held with
/// its value. It panics on a pattern of 26 or more named parameters, which
/// the bound on `:` characters rules out. An empty pattern is taken without
/// being kept by the next insertion, so a pattern must start with `/`. The
/// trie splits nodes at byte positions, and on a conflict it rebuilds the
/// clashing route as UTF-8 and unwraps, which panics where a split fell
/// inside a multi-byte character; so a pattern must be ASCII.
#[verifier::external_body]
pub(crate) fn trie_insert(t: &mut PathTrie<u32>, route: &str, id: u32) -> (r: Result<(), matchit::InsertError>)
    requires
        route@.len() > 0,
        route@[0] == '/',
        is_ascii_text(route@),
        colon_count(route@) <= MAX_PARAMS,
    ensures
        r is Ok <==> trie_accepts(*old(t), route@),
        r is Ok ==> trie_routes(*final(t)) == trie_routes(*old(t)).insert(route@, id),
{
    t.insert(route, id)
}

/// Relies on `matchit::Router::at`: a match is one held pattern, with its
/// value and captured parameters, and depends on the trie and the path
/// alone; static segments take priority over dynamic ones ("Routing
/// Priority" in the crate's documentation), so a held static pattern always
/// matches itself. An empty path is kept out: on a failed match the trie
/// reads the path's last byte.
#[verifier::external_body]
pub(crate) fn trie_at(t: &PathTrie<u32>, path: &str) -> (r: Option<TrieMatch>)
    requires
        path@.len() > 0,
    ensures
        r is None <==> trie_match(*t, path@) is None,
        r is Some ==> trie_match(*t, path@) == Some(r->Some_0.view()),
        r is Some ==> held_match(trie_routes(*t), path@, r->Some_0.id, r->Some_0.params@.len()),
        (trie_routes(*t).contains_key(path@) && is_static(path@)) ==> (r is Some && r->Some_0.id
            == trie_routes(*t)[path@] && r->Some_0.params@.len() == 0),
{
    match t.at(path) {
        Ok(m) => Some(TrieMatch {
            id: *m.value,
            params: m.params.iter().map(|(k, v)| (k.to_owned(), v.to_owned())).collect(),
        }),
        Err(_) => None,
    }
}

/// Relies on `matchit::InsertError`'s variants: whether the pattern clashed
/// with one held before.
#[verifier::external_body]
pub(crate) fn insert_error_is_conflict(e: &matchit::InsertError) -> bool {
    matches!(e, matchit::InsertError::Conflict { .. })
}

/// Relies on `matchit::InsertError`'s `Display`: the text of the error.
#[verifier::external_body]
pub(crate) fn insert_error_text(e: &matchit::InsertError) -> String {
    format!("{e}")
}

} // verus!
