//! One-to-many maps: `MultiMap` keeps every value of a key in insertion
//! order (duplicates allowed); `MultiMapSet` keeps each value of a key once.
//!
//! Entries are kept in the order their keys were first inserted; a key
//! appears at most once.

use vstd::prelude::*;
use crate::keyed::MapKey;

verus! {

/// Errors of the multimaps.
#[derive(Debug, Clone, Copy, PartialEq, Eq)]
pub enum MultiMapError {
    KeyNotFound,
    ValueNotFound,
}

/// Some entry of `s` has key `k`.
pub open spec fn has_key<KV, A>(s: Seq<(KV, A)>, k: KV) -> bool {
    exists|i: int| 0 <= i < s.len() && s[i].0 == k
}

/// The position of the entry with key `k`.
pub open spec fn key_index<KV, A>(s: Seq<(KV, A)>, k: KV) -> int {
    choose|i: int| 0 <= i < s.len() && s[i].0 == k
}

/// No key occurs in two entries.
pub open spec fn distinct_keys<KV, A>(s: Seq<(KV, A)>) -> bool {
    forall|i: int, j: int| 0 <= i < s.len() && 0 <= j < s.len() && i != j ==> s[i].0 != s[j].0
}

/// The values stored under `k`.
pub open spec fn lookup<KV, A>(s: Seq<(KV, A)>, k: KV) -> Option<A> {
    if has_key(s, k) {
        Some(s[key_index(s, k)].1)
    } else {
        None
    }
}

/// The entries after appending `v` to the values of `k` (a new entry at
/// the end when `k` is absent).
pub open spec fn insert_value<KV, V>(s: Seq<(KV, Seq<V>)>, k: KV, v: V) -> Seq<(KV, Seq<V>)> {
    if has_key(s, k) {
        let i = key_index(s, k);
        s.update(i, (k, s[i].1.push(v)))
    } else {
        s.push((k, seq![v]))
    }
}

/// The entries without the one for `k`.
pub open spec fn remove_key<KV, A>(s: Seq<(KV, A)>, k: KV) -> Seq<(KV, A)> {
    if has_key(s, k) {
        s.remove(key_index(s, k))
    } else {
        s
    }
}

/// Some value of `vals` has view `v`.
pub open spec fn has_value<V: View>(vals: Seq<V>, v: V::V) -> bool {
    exists|j: int| 0 <= j < vals.len() && vals[j]@ == v
}

/// The first position of a value with view `v`.
pub open spec fn first_value_index<V: View>(vals: Seq<V>, v: V::V) -> int {
    choose|j: int|
        0 <= j < vals.len() && vals[j]@ == v && forall|l: int| 0 <= l < j ==> vals[l]@ != v
}

/// The entries after removing the first value with view `v` from the values
/// of `k`; the entry goes when it becomes empty.
pub open spec fn remove_value<KV, V: View>(s: Seq<(KV, Seq<V>)>, k: KV, v: V::V) -> Seq<(KV, Seq<V>)> {
    if has_key(s, k) && has_value(s[key_index(s, k)].1, v) {
        let i = key_index(s, k);
        let rest = s[i].1.remove(first_value_index(s[i].1, v));
        if rest.len() == 0 {
            s.remove(i)
        } else {
            s.update(i, (k, rest))
        }
    } else {
        s
    }
}

/// The number of values over all entries.
pub open spec fn total<KV, V>(s: Seq<(KV, Seq<V>)>) -> nat
    decreases s.len(),
{
    if s.len() == 0 {
        0
    } else {
        total(s.drop_last()) + s.last().1.len()
    }
}

/// Every value, entry by entry.
pub open spec fn flat_values<KV, V>(s: Seq<(KV, Seq<V>)>) -> Seq<V>
    decreases s.len(),
{
    if s.len() == 0 {
        Seq::empty()
    } else {
        flat_values(s.drop_last()) + s.last().1
    }
}

/// Every (key, value) pair, entry by entry.
pub open spec fn flat_pairs<KV, V>(s: Seq<(KV, Seq<V>)>) -> Seq<(KV, V)>
    decreases s.len(),
{
    if s.len() == 0 {
        Seq::empty()
    } else {
        flat_pairs(s.drop_last()) + s.last().1.map_values(|v: V| (s.last().0, v))
    }
}

/// With distinct keys, the entry found for `k` is the one at `i`.
pub proof fn lemma_key_index_unique<KV, A>(s: Seq<(KV, A)>, i: int)
    requires
        distinct_keys(s),
        0 <= i < s.len(),
    ensures
        has_key(s, s[i].0),
        key_index(s, s[i].0) == i,
{
}

/// Replacing the values of one entry keeps the keys distinct.
pub proof fn lemma_update_values_keeps_keys<KV, V>(s: Seq<(KV, Seq<V>)>, i: int, vals: Seq<V>)
    requires
        distinct_keys(s),
        0 <= i < s.len(),
    ensures
        distinct_keys(s.update(i, (s[i].0, vals))),
{
    let t = s.update(i, (s[i].0, vals));
    assert forall|a: int, b: int| 0 <= a < t.len() && 0 <= b < t.len() && a != b implies t[a].0 != t[b].0 by {
        assert(t[a].0 == s[a].0);
        assert(t[b].0 == s[b].0);
    }
}

/// A value that occurs has a first occurrence.
pub proof fn lemma_first_value_index<V: View>(vals: Seq<V>, v: V::V)
    requires
        has_value(vals, v),
    ensures
        0 <= first_value_index(vals, v) < vals.len(),
        vals[first_value_index(vals, v)]@ == v,
        forall|l: int| 0 <= l < first_value_index(vals, v) ==> vals[l]@ != v,
{
    let j = choose|j: int| 0 <= j < vals.len() && vals[j]@ == v;
    lemma_first_occurrence_exists(vals, v, j);
}

proof fn lemma_first_occurrence_exists<V: View>(vals: Seq<V>, v: V::V, j: int)
    requires
        0 <= j < vals.len(),
        vals[j]@ == v,
    ensures
        exists|m: int|
            0 <= m < vals.len() && vals[m]@ == v && forall|l: int| 0 <= l < m ==> vals[l]@ != v,
    decreases j,
{
    if exists|l: int| 0 <= l < j && vals[l]@ == v {
        let l = choose|l: int| 0 <= l < j && vals[l]@ == v;
        lemma_first_occurrence_exists(vals, v, l);
    }
}

/// The total over a prefix of the entries is at most the total.
pub proof fn lemma_total_prefix<KV, V>(s: Seq<(KV, Seq<V>)>, i: int)
    requires
        0 <= i <= s.len(),
    ensures
        total(s.subrange(0, i)) <= total(s),
        i < s.len() ==> total(s.subrange(0, i + 1)) == total(s.subrange(0, i)) + s[i].1.len(),
    decreases s.len(),
{
    if i < s.len() {
        assert(s.subrange(0, i + 1).drop_last() =~= s.subrange(0, i));
        if i + 1 < s.len() {
            lemma_total_prefix(s.drop_last(), i);
            assert(s.drop_last().subrange(0, i) =~= s.subrange(0, i));
        } else {
            assert(s.subrange(0, i + 1) =~= s);
        }
    } else {
        assert(s.subrange(0, i) =~= s);
    }
}

/// Appending an entry adds its values to the total.
pub proof fn lemma_total_push<KV, V>(s: Seq<(KV, Seq<V>)>, e: (KV, Seq<V>))
    ensures
        total(s.push(e)) == total(s) + e.1.len(),
{
    assert(s.push(e).drop_last() =~= s);
}

/// Replacing one entry changes the total by the difference of the value counts.
pub proof fn lemma_total_update<KV, V>(s: Seq<(KV, Seq<V>)>, i: int, e: (KV, Seq<V>))
    requires
        0 <= i < s.len(),
    ensures
        total(s.update(i, e)) + s[i].1.len() == total(s) + e.1.len(),
    decreases s.len(),
{
    if i == s.len() - 1 {
        assert(s.update(i, e).drop_last() =~= s.drop_last());
    } else {
        lemma_total_update(s.drop_last(), i, e);
        assert(s.update(i, e).drop_last() =~= s.drop_last().update(i, e));
    }
}

/// Removing one entry takes its values off the total.
pub proof fn lemma_total_remove<KV, V>(s: Seq<(KV, Seq<V>)>, i: int)
    requires
        0 <= i < s.len(),
    ensures
        total(s.remove(i)) + s[i].1.len() == total(s),
    decreases s.len(),
{
    if i == s.len() - 1 {
        assert(s.remove(i) =~= s.drop_last());
    } else {
        lemma_total_remove(s.drop_last(), i);
        assert(s.remove(i).drop_last() =~= s.drop_last().remove(i));
    }
}

/// The keys of a one-to-many map, by view.
pub open spec fn entry_views<K: View, V>(s: Seq<(K, Vec<V>)>) -> Seq<(K::V, Seq<V>)> {
    s.map_values(|e: (K, Vec<V>)| (e.0@, e.1@))
}

/// Position of the entry for `key`, if any.
fn find_entry<K: MapKey, V>(inner: &Vec<(K, Vec<V>)>, key: &K) -> (r: Option<usize>)
    requires
        distinct_keys(entry_views(inner@)),
    ensures
        match r {
            Some(i) => i < inner@.len() && inner@[i as int].0@ == key@ && key_index(
                entry_views(inner@),
                key@,
            ) == i && has_key(entry_views(inner@), key@),
            None => !has_key(entry_views(inner@), key@),
        },
{
    let ghost s = entry_views(inner@);
    let mut i: usize = 0;
    while i < inner.len()
        invariant
            s == entry_views(inner@),
            distinct_keys(s),
            i <= inner@.len(),
            forall|j: int| 0 <= j < i ==> #[trigger] s[j].0 != key@,
        decreases inner@.len() - i,
    {
        if inner[i].0.key_eq(key) {
            proof {
                assert(s[i as int].0 == key@);
                lemma_key_index_unique(s, i as int);
            }
            return Some(i);
        }
        i = i + 1;
    }
    None
}

/// Position of the first value equal to `value`, if any.
fn find_value<V: MapKey>(vals: &Vec<V>, value: &V) -> (r: Option<usize>)
    ensures
        match r {
            Some(j) => j < vals@.len() && vals@[j as int]@ == value@ && forall|l: int|
                0 <= l < j ==> (#[trigger] vals@[l])@ != value@,
            None => !has_value(vals@, value@),
        },
{
    let mut j: usize = 0;
    while j < vals.len()
        invariant
            j <= vals@.len(),
            forall|l: int| 0 <= l < j ==> (#[trigger] vals@[l])@ != value@,
        decreases vals@.len() - j,
    {
        if vals[j].key_eq(value) {
            return Some(j);
        }
        j = j + 1;
    }
    None
}

/// A map from each key to the list of its values.
pub struct MultiMap<K, V> {
    inner: Vec<(K, Vec<V>)>,
}

impl<K: MapKey, V> MultiMap<K, V> {
    /// The entries, by key view, in first-insertion order.
    pub closed spec fn entries(&self) -> Seq<(K::V, Seq<V>)> {
        entry_views(self.inner@)
    }

    /// Keys are never repeated.
    pub closed spec fn wf(&self) -> bool {
        distinct_keys(self.entries())
    }

    /// An empty map.
    pub fn new() -> (r: Self)
        ensures
            r.wf(),
            r.entries() == Seq::<(K::V, Seq<V>)>::empty(),
    {
        let r = MultiMap { inner: Vec::new() };
        assert(r.entries() =~= Seq::<(K::V, Seq<V>)>::empty());
        r
    }

    /// Append `value` to the values of `key`.
    pub fn insert(&mut self, key: K, value: V)
        requires
            old(self).wf(),
        ensures
            final(self).wf(),
            final(self).entries() == insert_value(old(self).entries(), key@, value),
    {
        let ghost s = self.entries();
        match find_entry(&self.inner, &key) {
            Some(i) => {
                let (k, mut vals) = self.inner.remove(i);
                vals.push(value);
                self.inner.insert(i, (k, vals));
                proof {
                    assert(self.entries() =~= s.update(i as int, (key@, s[i as int].1.push(value))));
                    assert forall|a: int, b: int|
                        0 <= a < self.entries().len() && 0 <= b < self.entries().len() && a != b
                            implies self.entries()[a].0 != self.entries()[b].0 by {
                        assert(self.entries()[a].0 == s[a].0);
                        assert(self.entries()[b].0 == s[b].0);
                    }
                }
            },
            None => {
                let ghost kv = key@;
                let mut fresh: Vec<V> = Vec::new();
                fresh.push(value);
                assert(fresh@ =~= seq![value]);
                self.inner.push((key, fresh));
                proof {
                    assert(self.entries() =~= s.push((kv, seq![value])));
                    assert forall|a: int, b: int|
                        0 <= a < self.entries().len() && 0 <= b < self.entries().len() && a != b
                            implies self.entries()[a].0 != self.entries()[b].0 by {
                        if a < s.len() && b < s.len() {
                            assert(self.entries()[a].0 == s[a].0);
                            assert(self.entries()[b].0 == s[b].0);
                        } else if a < s.len() {
                            assert(self.entries()[a].0 == s[a].0);
                        } else {
                            assert(self.entries()[b].0 == s[b].0);
                        }
                    }
                }
            },
        }
    }

    /// The values of `key`.
    pub fn get(&self, key: &K) -> (r: Option<&Vec<V>>)
        requires
            self.wf(),
        ensures
            r is Some <==> has_key(self.entries(), key@),
            r matches Some(vs) ==> lookup(self.entries(), key@) == Some(vs@),
    {
        match find_entry(&self.inner, key) {
            Some(i) => Some(&self.inner[i].1),
            None => None,
        }
    }

    /// The values of `key`, for modification in place.
    #[verifier::spinoff_prover]
    pub fn get_mut(&mut self, key: &K) -> (r: Option<&mut Vec<V>>)
        requires
            old(self).wf(),
        ensures
            r is Some <==> has_key(old(self).entries(), key@),
            match r {
                Some(vs) => lookup(old(self).entries(), key@) == Some(vs@) && final(self).entries()
                    == old(self).entries().update(
                    key_index(old(self).entries(), key@),
                    (key@, final(vs)@),
                ) && distinct_keys(
                    old(self).entries().update(key_index(old(self).entries(), key@), (key@, final(vs)@)),
                ),
                None => final(self).entries() == old(self).entries(),
            },
            final(self).wf(),
    {
        let ghost s = self.entries();
        match find_entry(&self.inner, key) {
            Some(i) => {
                proof {
                    assert(s[i as int].0 == key@);
                    assert(key_index(s, key@) == i);
                    assert forall|vals: Seq<V>|
                        distinct_keys(#[trigger] s.update(key_index(s, key@), (key@, vals))) by {
                        lemma_update_values_keeps_keys(s, i as int, vals);
                    }
                }
                Some(&mut self.inner[i].1)
            },
            None => None,
        }
    }

    /// The first value of `key`.
    pub fn get_first(&self, key: &K) -> (r: Option<&V>)
        requires
            self.wf(),
        ensures
            r is Some <==> (lookup(self.entries(), key@) matches Some(vs) && vs.len() > 0),
            r matches Some(v) ==> *v == lookup(self.entries(), key@)->0[0],
    {
        match self.get(key) {
            Some(vs) => {
                if vs.len() > 0 {
                    Some(&vs[0])
                } else {
                    None
                }
            },
            None => None,
        }
    }

    /// The last value of `key`.
    pub fn get_last(&self, key: &K) -> (r: Option<&V>)
        requires
            self.wf(),
        ensures
            r is Some <==> (lookup(self.entries(), key@) matches Some(vs) && vs.len() > 0),
            r matches Some(v) ==> *v == lookup(self.entries(), key@)->0.last(),
    {
        match self.get(key) {
            Some(vs) => {
                let n = vs.len();
                if n > 0 {
                    Some(&vs[n - 1])
                } else {
                    None
                }
            },
            None => None,
        }
    }

    /// Whether `key` has an entry.
    pub fn contains_key(&self, key: &K) -> (r: bool)
        requires
            self.wf(),
        ensures
            r == has_key(self.entries(), key@),
    {
        find_entry(&self.inner, key).is_some()
    }

    /// Remove the entry of `key`, returning its values.
    pub fn remove(&mut self, key: &K) -> (r: Option<Vec<V>>)
        requires
            old(self).wf(),
        ensures
            final(self).wf(),
            final(self).entries() == remove_key(old(self).entries(), key@),
            r is Some <==> has_key(old(self).entries(), key@),
            r matches Some(vs) ==> lookup(old(self).entries(), key@) == Some(vs@),
    {
        let ghost s = self.entries();
        match find_entry(&self.inner, key) {
            Some(i) => {
                let (_k, vals) = self.inner.remove(i);
                proof {
                    assert(self.entries() =~= s.remove(i as int));
                }
                Some(vals)
            },
            None => None,
        }
    }

    /// Remove the first value of `key` equal to `value`; the entry goes
    /// when it becomes empty. Whether a value was removed.
    pub fn remove_value(&mut self, key: &K, value: &V) -> (r: bool)
        where V: MapKey,
        requires
            old(self).wf(),
        ensures
            final(self).wf(),
            r == (has_key(old(self).entries(), key@) && has_value(
                lookup(old(self).entries(), key@)->0,
                value@,
            )),
            final(self).entries() == remove_value(old(self).entries(), key@, value@),
    {
        let ghost s = self.entries();
        match find_entry(&self.inner, key) {
            None => false,
            Some(i) => {
                let ghost vs = s[i as int].1;
                let pos = match find_value(&self.inner[i].1, value) {
                    Some(p) => p,
                    None => {
                        return false;
                    },
                };
                proof {
                    assert(has_value(vs, value@));
                    let j = first_value_index(vs, value@);
                    assert(j == pos) by {
                        if j < pos {
                            assert(vs[j]@ != value@);
                        }
                        if pos < j {
                            assert(vs[pos as int]@ == value@);
                        }
                    }
                }
                let (k, mut vals) = self.inner.remove(i);
                vals.remove(pos);
                if vals.len() == 0 {
                    proof {
                        assert(self.entries() =~= s.remove(i as int));
                    }
                } else {
                    self.inner.insert(i, (k, vals));
                    proof {
                        assert(self.entries() =~= s.update(i as int, (key@, vs.remove(pos as int))));
                        assert forall|a: int, b: int|
                            0 <= a < self.entries().len() && 0 <= b < self.entries().len() && a != b
                                implies self.entries()[a].0 != self.entries()[b].0 by {
                            assert(self.entries()[a].0 == s[a].0);
                            assert(self.entries()[b].0 == s[b].0);
                        }
                    }
                }
                true
            },
        }
    }

    /// Number of keys.
    pub fn len(&self) -> (r: usize)
        ensures
            r == self.entries().len(),
    {
        self.inner.len()
    }

    /// Number of values over all keys.
    pub fn total_values(&self) -> (r: usize)
        requires
            total(self.entries()) <= usize::MAX,
        ensures
            r == total(self.entries()),
    {
        let ghost s = self.entries();
        let mut sum: usize = 0;
        let mut i: usize = 0;
        while i < self.inner.len()
            invariant
                s == entry_views(self.inner@),
                total(s) <= usize::MAX,
                i <= self.inner@.len(),
                sum == total(s.subrange(0, i as int)),
            decreases self.inner@.len() - i,
        {
            proof {
                lemma_total_prefix(s, i as int);
                lemma_total_prefix(s, i + 1);
            }
            sum = sum + self.inner[i].1.len();
            i = i + 1;
        }
        proof {
            assert(s.subrange(0, i as int) =~= s);
        }
        sum
    }

    /// Whether there is no key.
    pub fn is_empty(&self) -> (r: bool)
        ensures
            r == (self.entries().len() == 0),
    {
        self.inner.len() == 0
    }

    /// Remove every entry.
    pub fn clear(&mut self)
        ensures
            final(self).wf(),
            final(self).entries() == Seq::<(K::V, Seq<V>)>::empty(),
    {
        self.inner.clear();
        assert(self.entries() =~= Seq::<(K::V, Seq<V>)>::empty());
    }

    /// The keys, in first-insertion order.
    pub fn keys(&self) -> (r: Vec<&K>)
        ensures
            r@.len() == self.entries().len(),
            forall|i: int| 0 <= i < r@.len() ==> (#[trigger] r@[i])@ == self.entries()[i].0,
    {
        let mut out: Vec<&K> = Vec::new();
        let mut i: usize = 0;
        while i < self.inner.len()
            invariant
                i <= self.inner@.len(),
                out@.len() == i,
                forall|j: int| 0 <= j < i ==> (#[trigger] out@[j])@ == self.inner@[j].0@,
            decreases self.inner@.len() - i,
        {
            out.push(&self.inner[i].0);
            i = i + 1;
        }
        out
    }

    /// Every value, key by key.
    pub fn values(&self) -> (r: Vec<&V>)
        ensures
            r@.len() == flat_values(self.entries()).len(),
            forall|i: int| 0 <= i < r@.len() ==> *(#[trigger] r@[i]) == flat_values(self.entries())[i],
    {
        let ghost s = self.entries();
        let mut out: Vec<&V> = Vec::new();
        let mut i: usize = 0;
        while i < self.inner.len()
            invariant
                s == entry_views(self.inner@),
                i <= self.inner@.len(),
                out@.len() == flat_values(s.subrange(0, i as int)).len(),
                forall|l: int|
                    0 <= l < out@.len() ==> *(#[trigger] out@[l]) == flat_values(
                        s.subrange(0, i as int),
                    )[l],
            decreases self.inner@.len() - i,
        {
            let ghost before = flat_values(s.subrange(0, i as int));
            assert(s.subrange(0, i + 1).drop_last() =~= s.subrange(0, i as int));
            let vs = &self.inner[i].1;
            let mut j: usize = 0;
            while j < vs.len()
                invariant
                    i < self.inner@.len(),
                    vs@ == s[i as int].1,
                    j <= vs@.len(),
                    out@.len() == before.len() + j,
                    forall|l: int| 0 <= l < out@.len() ==> *(#[trigger] out@[l]) == (before + vs@)[l],
                decreases vs@.len() - j,
            {
                out.push(&vs[j]);
                j = j + 1;
            }
            i = i + 1;
        }
        assert(s.subrange(0, i as int) =~= s);
        out
    }

    /// Every key with its values, in first-insertion order.
    pub fn iter(&self) -> (r: Vec<(&K, &Vec<V>)>)
        ensures
            r@.len() == self.entries().len(),
            forall|i: int|
                0 <= i < r@.len() ==> (#[trigger] r@[i]).0@ == self.entries()[i].0 && r@[i].1@
                    == self.entries()[i].1,
    {
        let mut out: Vec<(&K, &Vec<V>)> = Vec::new();
        let mut i: usize = 0;
        while i < self.inner.len()
            invariant
                i <= self.inner@.len(),
                out@.len() == i,
                forall|j: int|
                    0 <= j < i ==> (#[trigger] out@[j]).0@ == self.inner@[j].0@ && out@[j].1@
                        == self.inner@[j].1@,
            decreases self.inner@.len() - i,
        {
            out.push((&self.inner[i].0, &self.inner[i].1));
            i = i + 1;
        }
        out
    }

    /// Every (key, value) pair, key by key.
    pub fn flat_iter(&self) -> (r: Vec<(&K, &V)>)
        ensures
            r@.len() == flat_pairs(self.entries()).len(),
            forall|i: int|
                0 <= i < r@.len() ==> (#[trigger] r@[i]).0@ == flat_pairs(self.entries())[i].0
                    && *r@[i].1 == flat_pairs(self.entries())[i].1,
    {
        let ghost s = self.entries();
        let mut out: Vec<(&K, &V)> = Vec::new();
        let mut i: usize = 0;
        while i < self.inner.len()
            invariant
                s == entry_views(self.inner@),
                i <= self.inner@.len(),
                out@.len() == flat_pairs(s.subrange(0, i as int)).len(),
                forall|l: int|
                    0 <= l < out@.len() ==> (#[trigger] out@[l]).0@ == flat_pairs(
                        s.subrange(0, i as int),
                    )[l].0 && *out@[l].1 == flat_pairs(s.subrange(0, i as int))[l].1,
            decreases self.inner@.len() - i,
        {
            let ghost before = flat_pairs(s.subrange(0, i as int));
            let ghost k = s[i as int].0;
            assert(s.subrange(0, i + 1).drop_last() =~= s.subrange(0, i as int));
            let key = &self.inner[i].0;
            let vs = &self.inner[i].1;
            let ghost added = vs@.map_values(|v: V| (k, v));
            let mut j: usize = 0;
            while j < vs.len()
                invariant
                    i < self.inner@.len(),
                    vs@ == s[i as int].1,
                    key@ == k,
                    added == vs@.map_values(|v: V| (k, v)),
                    j <= vs@.len(),
                    out@.len() == before.len() + j,
                    forall|l: int|
                        0 <= l < out@.len() ==> (#[trigger] out@[l]).0@ == (before + added)[l].0
                            && *out@[l].1 == (before + added)[l].1,
                decreases vs@.len() - j,
            {
                out.push((key, &vs[j]));
                j = j + 1;
            }
            i = i + 1;
        }
        assert(s.subrange(0, i as int) =~= s);
        out
    }

    /// A map holding the given pairs, inserted in order.
    pub fn from_pairs(pairs: Vec<(K, V)>) -> (r: Self)
        ensures
            r.wf(),
            r.entries() == insert_all(Seq::<(K::V, Seq<V>)>::empty(), pairs@),
            r.entries().len() <= pairs@.len(),
    {
        let mut map = MultiMap::new();
        let mut pairs = pairs;
        let ghost n = pairs@.len();
        let ghost all = pairs@;
        while pairs.len() > 0
            invariant
                map.wf(),
                map.entries().len() + pairs@.len() <= n,
                insert_all(map.entries(), pairs@) == insert_all(Seq::<(K::V, Seq<V>)>::empty(), all),
            decreases pairs@.len(),
        {
            let ghost before = pairs@;
            let (k, v) = pairs.remove(0);
            proof {
                lemma_insert_len(map.entries(), k@, v);
                assert(pairs@ =~= before.drop_first());
            }
            map.insert(k, v);
        }
        map
    }
}

impl<K: MapKey, V> Default for MultiMap<K, V> {
    fn default() -> (r: Self)
        ensures
            r.wf(),
            r.entries() == Seq::<(K::V, Seq<V>)>::empty(),
    {
        Self::new()
    }
}

/// Inserting a value under `k`: the key is then present with the value
/// appended, every other key keeps its values, keys stay distinct, the
/// value count grows by one and the key count by at most one.
pub proof fn lemma_insert_value<KV, V>(s: Seq<(KV, Seq<V>)>, k: KV, v: V)
    requires
        distinct_keys(s),
    ensures
        distinct_keys(insert_value(s, k, v)),
        has_key(insert_value(s, k, v), k),
        lookup(insert_value(s, k, v), k) == Some(
            match lookup(s, k) {
                Some(vs) => vs.push(v),
                None => seq![v],
            },
        ),
        forall|k2: KV| k2 != k ==> lookup(insert_value(s, k, v), k2) == lookup(s, k2),
        total(insert_value(s, k, v)) == total(s) + 1,
        insert_value(s, k, v).len() == s.len() + (if has_key(s, k) { 0int } else { 1int }),
{
    let t = insert_value(s, k, v);
    if has_key(s, k) {
        let i = key_index(s, k);
        lemma_total_update(s, i, (k, s[i].1.push(v)));
        assert(distinct_keys(t)) by {
            assert forall|a: int, b: int| 0 <= a < t.len() && 0 <= b < t.len() && a != b implies t[a].0
                != t[b].0 by {
                assert(t[a].0 == s[a].0);
                assert(t[b].0 == s[b].0);
            }
        }
        lemma_key_index_unique(t, i);
        assert forall|k2: KV| k2 != k implies lookup(t, k2) == lookup(s, k2) by {
            if has_key(s, k2) {
                let j = key_index(s, k2);
                assert(t[j].0 == k2);
                lemma_key_index_unique(t, j);
            } else {
                assert forall|j: int| 0 <= j < t.len() implies t[j].0 != k2 by {
                    assert(t[j].0 == s[j].0);
                }
            }
        }
    } else {
        lemma_total_push(s, (k, seq![v]));
        assert(distinct_keys(t)) by {
            assert forall|a: int, b: int| 0 <= a < t.len() && 0 <= b < t.len() && a != b implies t[a].0
                != t[b].0 by {
                if a < s.len() {
                    assert(t[a].0 == s[a].0);
                }
                if b < s.len() {
                    assert(t[b].0 == s[b].0);
                }
            }
        }
        lemma_key_index_unique(t, s.len() as int);
        assert forall|k2: KV| k2 != k implies lookup(t, k2) == lookup(s, k2) by {
            if has_key(s, k2) {
                let j = key_index(s, k2);
                assert(t[j].0 == k2);
                lemma_key_index_unique(t, j);
            } else {
                assert forall|j: int| 0 <= j < t.len() implies t[j].0 != k2 by {
                    if j < s.len() {
                        assert(t[j].0 == s[j].0);
                    }
                }
            }
        }
    }
}

/// Removing the entry of `k`: the key is gone, every other key keeps its
/// values, keys stay distinct and the value count drops by the values of `k`.
pub proof fn lemma_remove_key<KV, V>(s: Seq<(KV, Seq<V>)>, k: KV)
    requires
        distinct_keys(s),
    ensures
        distinct_keys(remove_key(s, k)),
        !has_key(remove_key(s, k), k),
        forall|k2: KV| k2 != k ==> lookup(remove_key(s, k), k2) == lookup(s, k2),
        total(remove_key(s, k)) + (match lookup(s, k) {
            Some(vs) => vs.len(),
            None => 0,
        }) == total(s),
{
    let t = remove_key(s, k);
    if has_key(s, k) {
        let i = key_index(s, k);
        lemma_total_remove(s, i);
        assert(forall|j: int| 0 <= j < t.len() ==> t[j] == s[if j < i { j } else { j + 1 }]);
        assert(distinct_keys(t));
        assert forall|j: int| 0 <= j < t.len() implies t[j].0 != k by {
            let o = if j < i { j } else { j + 1 };
            assert(t[j] == s[o]);
        }
        assert forall|k2: KV| k2 != k implies lookup(t, k2) == lookup(s, k2) by {
            if has_key(s, k2) {
                let j = key_index(s, k2);
                assert(j != i);
                let tj = if j < i { j } else { j - 1 };
                assert(t[tj] == s[j]);
                lemma_key_index_unique(t, tj);
            } else {
                assert forall|j: int| 0 <= j < t.len() implies t[j].0 != k2 by {
                    let o = if j < i { j } else { j + 1 };
                    assert(t[j] == s[o]);
                }
            }
        }
    }
}

/// Removing one occurrence of `v` under `k`: when it is there the value
/// count drops by one, and the key goes with its last value; otherwise
/// nothing changes. Other keys keep their values and keys stay distinct.
pub proof fn lemma_remove_value<KV, V: View>(s: Seq<(KV, Seq<V>)>, k: KV, v: V::V)
    requires
        distinct_keys(s),
    ensures
        distinct_keys(remove_value(s, k, v)),
        forall|k2: KV| k2 != k ==> lookup(remove_value(s, k, v), k2) == lookup(s, k2),
        (has_key(s, k) && has_value(lookup(s, k)->0, v)) ==> total(remove_value(s, k, v)) + 1
            == total(s),
        (has_key(s, k) && has_value(lookup(s, k)->0, v) && lookup(s, k)->0.len() == 1) ==> !has_key(
            remove_value(s, k, v),
            k,
        ),
        (has_key(s, k) && has_value(lookup(s, k)->0, v) && lookup(s, k)->0.len() > 1) ==> has_key(
            remove_value(s, k, v),
            k,
        ),
        !(has_key(s, k) && has_value(lookup(s, k)->0, v)) ==> remove_value(s, k, v) == s,
{
    if has_key(s, k) && has_value(s[key_index(s, k)].1, v) {
        let i = key_index(s, k);
        let j = first_value_index(s[i].1, v);
        lemma_first_value_index(s[i].1, v);
        let rest = s[i].1.remove(j);
        assert(rest.len() == s[i].1.len() - 1);
        if rest.len() == 0 {
            lemma_remove_key(s, k);
            lemma_key_index_unique(s, i);
        } else {
            let t = s.update(i, (k, rest));
            lemma_total_update(s, i, (k, rest));
            assert(distinct_keys(t)) by {
                assert forall|a: int, b: int| 0 <= a < t.len() && 0 <= b < t.len() && a != b implies t[a].0
                    != t[b].0 by {
                    assert(t[a].0 == s[a].0);
                    assert(t[b].0 == s[b].0);
                }
            }
            lemma_key_index_unique(t, i);
            assert forall|k2: KV| k2 != k implies lookup(t, k2) == lookup(s, k2) by {
                if has_key(s, k2) {
                    let m = key_index(s, k2);
                    assert(t[m].0 == k2);
                    lemma_key_index_unique(t, m);
                } else {
                    assert forall|m: int| 0 <= m < t.len() implies t[m].0 != k2 by {
                        assert(t[m].0 == s[m].0);
                    }
                }
            }
        }
    }
}

/// A new map holds no key and no value; clearing gives the same.
pub proof fn lemma_empty_map<KV, V>()
    ensures
        total(Seq::<(KV, Seq<V>)>::empty()) == 0,
        distinct_keys(Seq::<(KV, Seq<V>)>::empty()),
        forall|k: KV| !has_key(Seq::<(KV, Seq<V>)>::empty(), k),
{
}

/// Two values under one key: the key count stays one, the values come back
/// in insertion order (duplicates kept), first and last being the two.
pub proof fn lemma_two_inserts_same_key<KV, V>(k: KV, v1: V, v2: V)
    ensures
        ({
            let t = insert_value(insert_value(Seq::<(KV, Seq<V>)>::empty(), k, v1), k, v2);
            &&& t.len() == 1
            &&& total(t) == 2
            &&& lookup(t, k) == Some(seq![v1, v2])
        }),
{
    let e = Seq::<(KV, Seq<V>)>::empty();
    lemma_insert_value(e, k, v1);
    let s1 = insert_value(e, k, v1);
    lemma_insert_value(s1, k, v2);
    assert(seq![v1].push(v2) =~= seq![v1, v2]);
}

/// Two distinct keys with one value each: two keys, two values.
pub proof fn lemma_two_keys<KV, V>(k1: KV, k2: KV, v1: V, v2: V)
    requires
        k1 != k2,
    ensures
        ({
            let t = insert_value(insert_value(Seq::<(KV, Seq<V>)>::empty(), k1, v1), k2, v2);
            &&& t.len() == 2
            &&& total(t) == 2
            &&& has_key(t, k1) && has_key(t, k2)
        }),
{
    let e = Seq::<(KV, Seq<V>)>::empty();
    lemma_insert_value(e, k1, v1);
    let s1 = insert_value(e, k1, v1);
    lemma_insert_value(s1, k2, v2);
    assert(lookup(insert_value(s1, k2, v2), k1) == lookup(s1, k1));
}

/// `s` with the pairs of `pairs` inserted in order.
pub open spec fn insert_all<K: View, V>(s: Seq<(K::V, Seq<V>)>, pairs: Seq<(K, V)>) -> Seq<(K::V, Seq<V>)>
    decreases pairs.len(),
{
    if pairs.len() == 0 {
        s
    } else {
        insert_all(insert_value(s, pairs[0].0@, pairs[0].1), pairs.drop_first())
    }
}

/// Inserting adds at most one key.
pub proof fn lemma_insert_len<KV, V>(s: Seq<(KV, Seq<V>)>, k: KV, v: V)
    ensures
        insert_value(s, k, v).len() == s.len() + (if has_key(s, k) { 0int } else { 1int }),
{
}


/// The entries after taking `a` out of the values of `k`; the entry goes
/// when it becomes empty.
pub open spec fn remove_member<KV, A>(s: Seq<(KV, Seq<A>)>, k: KV, a: A) -> Seq<(KV, Seq<A>)> {
    if has_key(s, k) && s[key_index(s, k)].1.contains(a) {
        let i = key_index(s, k);
        let rest = s[i].1.remove(s[i].1.index_of(a));
        if rest.len() == 0 {
            s.remove(i)
        } else {
            s.update(i, (k, rest))
        }
    } else {
        s
    }
}

/// The values of every entry are free of repeats.
pub open spec fn members_distinct<KV, A>(s: Seq<(KV, Seq<A>)>) -> bool {
    forall|i: int| 0 <= i < s.len() ==> (#[trigger] s[i]).1.no_duplicates()
}

/// The view of a list of values.
pub open spec fn value_views<V: View>(vals: Seq<V>) -> Seq<V::V> {
    vals.map_values(|v: V| v@)
}

/// The entries of a set-valued map, by view.
pub open spec fn set_entry_views<K: View, V: View>(s: Seq<(K, Vec<V>)>) -> Seq<(K::V, Seq<V::V>)> {
    s.map_values(|e: (K, Vec<V>)| (e.0@, value_views(e.1@)))
}

/// Position of the entry whose key has the view of `key`, if any.
fn find_key<K: MapKey, A>(inner: &Vec<(K, A)>, key: &K) -> (r: Option<usize>)
    ensures
        match r {
            Some(i) => i < inner@.len() && inner@[i as int].0@ == key@,
            None => forall|j: int| 0 <= j < inner@.len() ==> (#[trigger] inner@[j]).0@ != key@,
        },
{
    let mut i: usize = 0;
    while i < inner.len()
        invariant
            i <= inner@.len(),
            forall|j: int| 0 <= j < i ==> (#[trigger] inner@[j]).0@ != key@,
        decreases inner@.len() - i,
    {
        if inner[i].0.key_eq(key) {
            return Some(i);
        }
        i = i + 1;
    }
    None
}

/// A map from each key to a set of values: a value is kept once per key.
pub struct MultiMapSet<K, V> {
    inner: Vec<(K, Vec<V>)>,
}

impl<K: MapKey, V: MapKey> MultiMapSet<K, V> {
    /// The entries, by view, in first-insertion order of their keys.
    pub closed spec fn entries(&self) -> Seq<(K::V, Seq<V::V>)> {
        set_entry_views(self.inner@)
    }

    /// Keys are never repeated, and no key holds a value twice.
    pub closed spec fn wf(&self) -> bool {
        &&& distinct_keys(self.entries())
        &&& members_distinct(self.entries())
    }

    /// An empty map.
    pub fn new() -> (r: Self)
        ensures
            r.wf(),
            r.entries() == Seq::<(K::V, Seq<V::V>)>::empty(),
    {
        let r = MultiMapSet { inner: Vec::new() };
        assert(r.entries() =~= Seq::<(K::V, Seq<V::V>)>::empty());
        r
    }

    /// Add `value` to the values of `key`; false when it was already there.
    pub fn insert(&mut self, key: K, value: V) -> (r: bool)
        requires
            old(self).wf(),
        ensures
            final(self).wf(),
            r == !(has_key(old(self).entries(), key@) && lookup(old(self).entries(), key@)->0.contains(
                value@,
            )),
            final(self).entries() == if r {
                insert_value(old(self).entries(), key@, value@)
            } else {
                old(self).entries()
            },
    {
        let ghost s = self.entries();
        let ghost kv = key@;
        let ghost vv = value@;
        match find_key(&self.inner, &key) {
            Some(i) => {
                proof {
                    assert(s[i as int].0 == kv);
                    lemma_key_index_unique(s, i as int);
                }
                match find_value(&self.inner[i].1, &value) {
                    Some(p) => {
                        proof {
                            assert(s[i as int].1[p as int] == vv);
                        }
                        return false;
                    },
                    None => {},
                }
                proof {
                    assert forall|j: int| 0 <= j < s[i as int].1.len() implies s[i as int].1[j] != vv by {
                        assert(s[i as int].1[j] == self.inner@[i as int].1@[j]@);
                    }
                }
                let (k, mut vals) = self.inner.remove(i);
                let ghost before = vals@;
                vals.push(value);
                proof {
                    assert(value_views(vals@) =~= value_views(before).push(vv));
                }
                self.inner.insert(i, (k, vals));
                proof {
                    let t = s.update(i as int, (kv, s[i as int].1.push(vv)));
                    assert(self.entries() =~= t);
                    lemma_update_values_keeps_keys(s, i as int, s[i as int].1.push(vv));
                    assert forall|a: int| 0 <= a < t.len() implies (#[trigger] t[a]).1.no_duplicates() by {
                        if a != i {
                            assert(t[a] == s[a]);
                        }
                    }
                }
                true
            },
            None => {
                proof {
                    assert forall|j: int| 0 <= j < s.len() implies s[j].0 != kv by {
                        assert(s[j].0 == self.inner@[j].0@);
                    }
                }
                let mut fresh: Vec<V> = Vec::new();
                fresh.push(value);
                proof {
                    assert(value_views(fresh@) =~= seq![vv]);
                }
                self.inner.push((key, fresh));
                proof {
                    let t = s.push((kv, seq![vv]));
                    assert(self.entries() =~= t);
                    assert forall|a: int, b: int| 0 <= a < t.len() && 0 <= b < t.len() && a != b implies t[a].0
                        != t[b].0 by {
                        if a < s.len() {
                            assert(t[a] == s[a]);
                        }
                        if b < s.len() {
                            assert(t[b] == s[b]);
                        }
                    }
                    assert forall|a: int| 0 <= a < t.len() implies (#[trigger] t[a]).1.no_duplicates() by {
                        if a < s.len() {
                            assert(t[a] == s[a]);
                        }
                    }
                }
                true
            },
        }
    }

    /// The values of `key`.
    pub fn get(&self, key: &K) -> (r: Option<&Vec<V>>)
        requires
            self.wf(),
        ensures
            r is Some <==> has_key(self.entries(), key@),
            r matches Some(vs) ==> lookup(self.entries(), key@) == Some(value_views(vs@)),
    {
        let ghost s = self.entries();
        match find_key(&self.inner, key) {
            Some(i) => {
                proof {
                    assert(s[i as int].0 == key@);
                    lemma_key_index_unique(s, i as int);
                }
                Some(&self.inner[i].1)
            },
            None => {
                proof {
                    assert forall|j: int| 0 <= j < s.len() implies s[j].0 != key@ by {
                        assert(s[j].0 == self.inner@[j].0@);
                    }
                }
                None
            },
        }
    }

    /// Whether `key` holds `value`.
    pub fn contains(&self, key: &K, value: &V) -> (r: bool)
        requires
            self.wf(),
        ensures
            r == (has_key(self.entries(), key@) && lookup(self.entries(), key@)->0.contains(value@)),
    {
        match self.get(key) {
            Some(vs) => {
                match find_value(vs, value) {
                    Some(p) => {
                        assert(value_views(vs@)[p as int] == value@);
                        true
                    },
                    None => {
                        assert forall|j: int| 0 <= j < value_views(vs@).len() implies value_views(
                            vs@,
                        )[j] != value@ by {
                            assert(value_views(vs@)[j] == vs@[j]@);
                        }
                        false
                    },
                }
            },
            None => false,
        }
    }

    /// Whether `key` has an entry.
    pub fn contains_key(&self, key: &K) -> (r: bool)
        requires
            self.wf(),
        ensures
            r == has_key(self.entries(), key@),
    {
        self.get(key).is_some()
    }

    /// Remove the entry of `key`, returning its values.
    pub fn remove(&mut self, key: &K) -> (r: Option<Vec<V>>)
        requires
            old(self).wf(),
        ensures
            final(self).wf(),
            final(self).entries() == remove_key(old(self).entries(), key@),
            r is Some <==> has_key(old(self).entries(), key@),
            r matches Some(vs) ==> lookup(old(self).entries(), key@) == Some(value_views(vs@)),
    {
        let ghost s = self.entries();
        match find_key(&self.inner, key) {
            Some(i) => {
                proof {
                    assert(s[i as int].0 == key@);
                    lemma_key_index_unique(s, i as int);
                }
                let (_k, vals) = self.inner.remove(i);
                proof {
                    let t = s.remove(i as int);
                    assert(self.entries() =~= t);
                    lemma_remove_key(s, key@);
                    assert forall|a: int| 0 <= a < t.len() implies (#[trigger] t[a]).1.no_duplicates() by {
                        let o = if a < i { a } else { a + 1 };
                        assert(t[a] == s[o]);
                    }
                }
                Some(vals)
            },
            None => {
                proof {
                    assert forall|j: int| 0 <= j < s.len() implies s[j].0 != key@ by {
                        assert(s[j].0 == self.inner@[j].0@);
                    }
                }
                None
            },
        }
    }

    /// Take `value` out of the values of `key`; the entry goes when it
    /// becomes empty. Whether the value was there.
    pub fn remove_value(&mut self, key: &K, value: &V) -> (r: bool)
        requires
            old(self).wf(),
        ensures
            final(self).wf(),
            r == (has_key(old(self).entries(), key@) && lookup(old(self).entries(), key@)->0.contains(
                value@,
            )),
            final(self).entries() == remove_member(old(self).entries(), key@, value@),
    {
        let ghost s = self.entries();
        let ghost kv = key@;
        let ghost vv = value@;
        match find_key(&self.inner, key) {
            None => {
                proof {
                    assert forall|j: int| 0 <= j < s.len() implies s[j].0 != kv by {
                        assert(s[j].0 == self.inner@[j].0@);
                    }
                }
                false
            },
            Some(i) => {
                proof {
                    assert(s[i as int].0 == kv);
                    lemma_key_index_unique(s, i as int);
                }
                let ghost vs = s[i as int].1;
                let pos = match find_value(&self.inner[i].1, value) {
                    Some(p) => p,
                    None => {
                        proof {
                            assert forall|j: int| 0 <= j < vs.len() implies vs[j] != vv by {
                                assert(vs[j] == self.inner@[i as int].1@[j]@);
                            }
                        }
                        return false;
                    },
                };
                proof {
                    assert(vs[pos as int] == vv);
                    assert(vs.index_of(vv) == pos) by {
                        let q = vs.index_of(vv);
                        assert(vs.contains(vv));
                        assert(0 <= q < vs.len() && vs[q] == vv);
                    }
                }
                let (k, mut vals) = self.inner.remove(i);
                let ghost before = vals@;
                vals.remove(pos);
                proof {
                    assert(value_views(vals@) =~= vs.remove(pos as int));
                }
                if vals.len() == 0 {
                    proof {
                        let t = s.remove(i as int);
                        assert(self.entries() =~= t);
                        lemma_remove_key(s, kv);
                        assert forall|a: int| 0 <= a < t.len() implies (#[trigger] t[a]).1.no_duplicates() by {
                            let o = if a < i { a } else { a + 1 };
                            assert(t[a] == s[o]);
                        }
                    }
                } else {
                    self.inner.insert(i, (k, vals));
                    proof {
                        let rest = vs.remove(pos as int);
                        let t = s.update(i as int, (kv, rest));
                        assert(self.entries() =~= t);
                        lemma_update_values_keeps_keys(s, i as int, rest);
                        assert forall|a: int| 0 <= a < t.len() implies (#[trigger] t[a]).1.no_duplicates() by {
                            if a != i {
                                assert(t[a] == s[a]);
                            } else {
                                assert forall|x: int, y: int|
                                    0 <= x < rest.len() && 0 <= y < rest.len() && x != y implies rest[x]
                                    != rest[y] by {
                                    let ox = if x < pos { x } else { x + 1 };
                                    let oy = if y < pos { y } else { y + 1 };
                                    assert(rest[x] == vs[ox]);
                                    assert(rest[y] == vs[oy]);
                                }
                            }
                        }
                    }
                }
                true
            },
        }
    }

    /// Number of keys.
    pub fn len(&self) -> (r: usize)
        ensures
            r == self.entries().len(),
    {
        self.inner.len()
    }

    /// Number of values over all keys.
    pub fn total_values(&self) -> (r: usize)
        requires
            total(self.entries()) <= usize::MAX,
        ensures
            r == total(self.entries()),
    {
        let ghost s = self.entries();
        let mut sum: usize = 0;
        let mut i: usize = 0;
        while i < self.inner.len()
            invariant
                s == set_entry_views(self.inner@),
                total(s) <= usize::MAX,
                i <= self.inner@.len(),
                sum == total(s.subrange(0, i as int)),
            decreases self.inner@.len() - i,
        {
            proof {
                lemma_total_prefix(s, i as int);
                lemma_total_prefix(s, i + 1);
            }
            sum = sum + self.inner[i].1.len();
            i = i + 1;
        }
        proof {
            assert(s.subrange(0, i as int) =~= s);
        }
        sum
    }

    /// Whether there is no key.
    pub fn is_empty(&self) -> (r: bool)
        ensures
            r == (self.entries().len() == 0),
    {
        self.inner.len() == 0
    }

    /// Remove every entry.
    pub fn clear(&mut self)
        ensures
            final(self).wf(),
            final(self).entries() == Seq::<(K::V, Seq<V::V>)>::empty(),
    {
        self.inner.clear();
        assert(self.entries() =~= Seq::<(K::V, Seq<V::V>)>::empty());
    }

    /// The keys, in first-insertion order.
    pub fn keys(&self) -> (r: Vec<&K>)
        ensures
            r@.len() == self.entries().len(),
            forall|i: int| 0 <= i < r@.len() ==> (#[trigger] r@[i])@ == self.entries()[i].0,
    {
        let mut out: Vec<&K> = Vec::new();
        let mut i: usize = 0;
        while i < self.inner.len()
            invariant
                i <= self.inner@.len(),
                out@.len() == i,
                forall|j: int| 0 <= j < i ==> (#[trigger] out@[j])@ == self.inner@[j].0@,
            decreases self.inner@.len() - i,
        {
            out.push(&self.inner[i].0);
            i = i + 1;
        }
        out
    }

    /// Every key with its values, in first-insertion order.
    pub fn iter(&self) -> (r: Vec<(&K, &Vec<V>)>)
        ensures
            r@.len() == self.entries().len(),
            forall|i: int|
                0 <= i < r@.len() ==> (#[trigger] r@[i]).0@ == self.entries()[i].0 && value_views(
                    r@[i].1@,
                ) == self.entries()[i].1,
    {
        let mut out: Vec<(&K, &Vec<V>)> = Vec::new();
        let mut i: usize = 0;
        while i < self.inner.len()
            invariant
                i <= self.inner@.len(),
                out@.len() == i,
                forall|j: int|
                    0 <= j < i ==> (#[trigger] out@[j]).0@ == self.inner@[j].0@ && out@[j].1@
                        == self.inner@[j].1@,
            decreases self.inner@.len() - i,
        {
            out.push((&self.inner[i].0, &self.inner[i].1));
            i = i + 1;
        }
        out
    }
}

impl<K: MapKey, V: MapKey> Default for MultiMapSet<K, V> {
    fn default() -> (r: Self)
        ensures
            r.wf(),
            r.entries() == Seq::<(K::V, Seq<V::V>)>::empty(),
    {
        Self::new()
    }
}

/// Adding a value that a key does not hold yet: the key then holds it,
/// values stay free of repeats and the value count grows by one.
pub proof fn lemma_member_insert<KV, A>(s: Seq<(KV, Seq<A>)>, k: KV, a: A)
    requires
        distinct_keys(s),
        members_distinct(s),
        !(has_key(s, k) && lookup(s, k)->0.contains(a)),
    ensures
        members_distinct(insert_value(s, k, a)),
        has_key(insert_value(s, k, a), k),
        lookup(insert_value(s, k, a), k)->0.contains(a),
        total(insert_value(s, k, a)) == total(s) + 1,
{
    lemma_insert_value(s, k, a);
    let t = insert_value(s, k, a);
    let vs = lookup(t, k)->0;
    assert(vs[vs.len() - 1] == a);
    if has_key(s, k) {
        let i = key_index(s, k);
        assert forall|m: int| 0 <= m < t.len() implies (#[trigger] t[m]).1.no_duplicates() by {
            if m != i {
                assert(t[m] == s[m]);
            }
        }
    } else {
        assert forall|m: int| 0 <= m < t.len() implies (#[trigger] t[m]).1.no_duplicates() by {
            if m < s.len() {
                assert(t[m] == s[m]);
            }
        }
    }
}

/// Taking a held value out of a key: the key no longer holds it, other
/// keys keep their values, values stay free of repeats and the value count
/// drops by one.
pub proof fn lemma_member_remove<KV, A>(s: Seq<(KV, Seq<A>)>, k: KV, a: A)
    requires
        distinct_keys(s),
        members_distinct(s),
        has_key(s, k),
        lookup(s, k)->0.contains(a),
    ensures
        distinct_keys(remove_member(s, k, a)),
        members_distinct(remove_member(s, k, a)),
        !(has_key(remove_member(s, k, a), k) && lookup(remove_member(s, k, a), k)->0.contains(a)),
        forall|k2: KV| k2 != k ==> lookup(remove_member(s, k, a), k2) == lookup(s, k2),
        total(remove_member(s, k, a)) + 1 == total(s),
{
    let i = key_index(s, k);
    let vs = s[i].1;
    let p = vs.index_of(a);
    let rest = vs.remove(p);
    let t = remove_member(s, k, a);
    assert(rest.len() == vs.len() - 1);
    if rest.len() == 0 {
        lemma_remove_key(s, k);
        lemma_key_index_unique(s, i);
        assert forall|m: int| 0 <= m < t.len() implies (#[trigger] t[m]).1.no_duplicates() by {
            let o = if m < i { m } else { m + 1 };
            assert(t[m] == s[o]);
        }
    } else {
        lemma_update_values_keeps_keys(s, i, rest);
        lemma_total_update(s, i, (k, rest));
        lemma_key_index_unique(t, i);
        assert(vs.no_duplicates());
        assert(rest.no_duplicates()) by {
            assert forall|x: int, y: int| 0 <= x < rest.len() && 0 <= y < rest.len() && x != y implies rest[x]
                != rest[y] by {
                let ox = if x < p { x } else { x + 1 };
                let oy = if y < p { y } else { y + 1 };
                assert(rest[x] == vs[ox]);
                assert(rest[y] == vs[oy]);
            }
        }
        assert forall|m: int| 0 <= m < t.len() implies (#[trigger] t[m]).1.no_duplicates() by {
            if m != i {
                assert(t[m] == s[m]);
            }
        }
        assert forall|x: int| 0 <= x < rest.len() implies rest[x] != a by {
            let ox = if x < p { x } else { x + 1 };
            assert(rest[x] == vs[ox]);
        }
        assert forall|k2: KV| k2 != k implies lookup(t, k2) == lookup(s, k2) by {
            if has_key(s, k2) {
                let m = key_index(s, k2);
                assert(t[m].0 == k2);
                lemma_key_index_unique(t, m);
            } else {
                assert forall|m: int| 0 <= m < t.len() implies t[m].0 != k2 by {
                    assert(t[m].0 == s[m].0);
                }
            }
        }
    }
}

} // verus!
