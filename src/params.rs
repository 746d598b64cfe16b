use crate::router::PRIVATE_TAIL_PARAM;
use crate::text::{concat, strip_leading_slash, strip_slash};
use vstd::prelude::*;

verus! {

/// The path parameters extracted by the router, in match order.
#[derive(Clone, Debug)]
pub struct PathParams(pub Vec<(String, String)>);

impl PathParams {
    pub fn get_ref(&self) -> (r: &Vec<(String, String)>)
        ensures
            r@ == self.0@,
    {
        &self.0
    }

    pub fn into_inner(self) -> (r: Vec<(String, String)>)
        ensures
            r@ == self.0@,
    {
        self.0
    }
}

/// A parameter list as character sequences.
pub open spec fn pairs_view(v: Seq<(String, String)>) -> Seq<(Seq<char>, Seq<char>)> {
    v.map_values(|kv: (String, String)| (kv.0@, kv.1@))
}

/// The path a scope's captured tail stands for: rooted, with one `/`.
pub open spec fn tail_path(v: Seq<char>) -> Seq<char> {
    "/"@ + strip_slash(v)
}

/// Splits captured parameters into the ones handlers see and the scope tail;
/// of several tails the last counts.
pub open spec fn split_params(ps: Seq<(Seq<char>, Seq<char>)>) -> (Seq<(Seq<char>, Seq<char>)>, Option<Seq<char>>)
    decreases ps.len(),
{
    if ps.len() == 0 {
        (Seq::empty(), None)
    } else {
        let (rest, tail) = split_params(ps.drop_last());
        let (k, v) = ps.last();
        if k == PRIVATE_TAIL_PARAM@ {
            (rest, Some(tail_path(v)))
        } else {
            (rest.push((k, v)), tail)
        }
    }
}

/// Splits the parameters of a match into those that handlers see and the
/// path of the scope tail, if one was captured.
pub fn prase_path_params(params: Vec<(String, String)>) -> (r: (Vec<(String, String)>, Option<String>))
    ensures
        pairs_view(r.0@) == split_params(pairs_view(params@)).0,
        (match r.1 {
            Some(t) => Some(t@),
            None => None,
        }) == split_params(pairs_view(params@)).1,
{
    let tail_key = String::from_str(PRIVATE_TAIL_PARAM);
    let mut out: Vec<(String, String)> = Vec::new();
    let mut tail: Option<String> = None;
    let mut i: usize = 0;
    while i < params.len()
        invariant
            i <= params@.len(),
            tail_key@ == PRIVATE_TAIL_PARAM@,
            pairs_view(out@) == split_params(pairs_view(params@.subrange(0, i as int))).0,
            (match tail {
                Some(t) => Some(t@),
                None => None,
            }) == split_params(pairs_view(params@.subrange(0, i as int))).1,
        decreases params@.len() - i,
    {
        let ghost prev = params@.subrange(0, i as int);
        assert(pairs_view(params@.subrange(0, i + 1)).drop_last() =~= pairs_view(prev));
        let (k, v) = &params[i];
        if *k == tail_key {
            let rest = strip_leading_slash(v.as_str());
            tail = Some(concat("/", rest));
        } else {
            let ghost before = out@;
            out.push((k.clone(), v.clone()));
            assert(pairs_view(out@) =~= pairs_view(before).push((k@, v@)));
        }
        i = i + 1;
    }
    assert(params@.subrange(0, params@.len() as int) =~= params@);
    (out, tail)
}

/// Appends `params` to the path parameters attached to `params_slot`,
/// creating the parameter list when none is attached yet.
pub fn insert_path_params(params_slot: &mut Option<PathParams>, params: Vec<(String, String)>)
    ensures
        *final(params_slot) is Some,
        (*final(params_slot))->Some_0.0@ == (match *old(params_slot) {
            Some(p) => p.0@,
            None => Seq::empty(),
        }) + params@,
{
    let mut params = params;
    match params_slot {
        Some(p) => {
            p.0.append(&mut params);
        },
        None => {
            *params_slot = Some(PathParams(params));
        },
    }
}

} // verus!
