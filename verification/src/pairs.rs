//! Lists of distinct string keys with a value each, kept in the order the
//! keys were first set.

use vstd::prelude::*;
use crate::multimap::{distinct_keys, has_key, key_index, lemma_key_index_unique};
use crate::text::str_eq;

verus! {

/// The pairs after setting `k` to `v`: a known key keeps its place, a new
/// one goes last.
pub open spec fn put_param(ps: Seq<(Seq<char>, Seq<char>)>, k: Seq<char>, v: Seq<char>) -> Seq<(Seq<char>, Seq<char>)> {
    if has_key(ps, k) {
        ps.update(key_index(ps, k), (k, v))
    } else {
        ps.push((k, v))
    }
}

/// Pairs of strings by view.
pub open spec fn param_views(ps: Seq<(String, String)>) -> Seq<(Seq<char>, Seq<char>)> {
    ps.map_values(|p: (String, String)| (p.0@, p.1@))
}

/// Set `key` to `value`: a known key keeps its place.
pub fn put_param_exec(params: &mut Vec<(String, String)>, key: String, value: String)
    requires
        distinct_keys(param_views(old(params)@)),
    ensures
        distinct_keys(param_views(final(params)@)),
        param_views(final(params)@) == put_param(param_views(old(params)@), key@, value@),
{
    let ghost ps = param_views(params@);
    let ghost k = key@;
    let ghost v = value@;
    let mut i: usize = 0;
    while i < params.len()
        invariant
            ps == param_views(params@),
            ps == param_views(old(params)@),
            k == key@,
            v == value@,
            i <= params@.len(),
            forall|j: int| 0 <= j < i ==> (#[trigger] ps[j]).0 != k,
            distinct_keys(ps),
        decreases params@.len() - i,
    {
        assert(ps[i as int] == (params@[i as int].0@, params@[i as int].1@));
        let same = str_eq(params[i].0.as_str(), key.as_str());
        if same {
            proof {
                assert(ps[i as int].0 == k);
                lemma_key_index_unique(ps, i as int);
            }
            params[i] = (key, value);
            proof {
                let t = ps.update(i as int, (k, v));
                assert(param_views(params@) =~= t);
                assert forall|a: int, b: int| 0 <= a < t.len() && 0 <= b < t.len() && a != b implies t[a].0
                    != t[b].0 by {
                    assert(t[a].0 == ps[a].0);
                    assert(t[b].0 == ps[b].0);
                }
            }
            return;
        }
        i = i + 1;
    }
    proof {
        assert(!has_key(ps, k));
    }
    params.push((key, value));
    proof {
        let t = ps.push((k, v));
        assert(param_views(params@) =~= t);
        assert forall|a: int, b: int| 0 <= a < t.len() && 0 <= b < t.len() && a != b implies t[a].0 != t[b].0 by {
            if a < ps.len() {
                assert(t[a] == ps[a]);
            }
            if b < ps.len() {
                assert(t[b] == ps[b]);
            }
        }
    }
}

/// The position of `key` among the pairs.
pub fn find_pair(params: &Vec<(String, String)>, key: &str) -> (r: Option<usize>)
    requires
        distinct_keys(param_views(params@)),
    ensures
        match r {
            Some(i) => i < params@.len() && has_key(param_views(params@), key@) && key_index(
                param_views(params@),
                key@,
            ) == i && params@[i as int].0@ == key@,
            None => !has_key(param_views(params@), key@),
        },
{
    let ghost ps = param_views(params@);
    let mut i: usize = 0;
    while i < params.len()
        invariant
            ps == param_views(params@),
            distinct_keys(ps),
            i <= params@.len(),
            forall|j: int| 0 <= j < i ==> (#[trigger] ps[j]).0 != key@,
        decreases params@.len() - i,
    {
        assert(ps[i as int] == (params@[i as int].0@, params@[i as int].1@));
        if str_eq(params[i].0.as_str(), key) {
            proof {
                lemma_key_index_unique(ps, i as int);
            }
            return Some(i);
        }
        i = i + 1;
    }
    None
}

} // verus!
