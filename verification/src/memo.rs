//! Memoized functions: results kept by argument, with a bound on their
//! number (least recently used goes first) or an age limit.

use vstd::prelude::*;
use std::time::{Duration, Instant};
use crate::clock::{duration_nanos, instant_duration_since, instant_now};
use crate::keyed::MapKey;
use crate::multimap::{distinct_keys, has_key, key_index, lemma_key_index_unique, lookup, remove_key};

verus! {

/// Errors of memoization.
#[derive(Debug, Clone, PartialEq, Eq)]
pub enum MemoError {
    CacheMiss,
    ComputationFailed(String),
}

/// The cached results by argument view.
pub open spec fn memo_entries<I: View, O>(cache: Seq<(I, O)>) -> Seq<(I::V, O)> {
    cache.map_values(|e: (I, O)| (e.0@, e.1))
}

/// Position of the cached result for `key`.
fn find_cached<I: MapKey, O>(cache: &Vec<(I, O)>, key: &I) -> (r: Option<usize>)
    requires
        distinct_keys(memo_entries(cache@)),
    ensures
        match r {
            Some(i) => i < cache@.len() && has_key(memo_entries(cache@), key@) && key_index(
                memo_entries(cache@),
                key@,
            ) == i,
            None => !has_key(memo_entries(cache@), key@),
        },
{
    let ghost es = memo_entries(cache@);
    let mut i: usize = 0;
    while i < cache.len()
        invariant
            es == memo_entries(cache@),
            distinct_keys(es),
            i <= cache@.len(),
            forall|j: int| 0 <= j < i ==> (#[trigger] es[j]).0 != key@,
        decreases cache@.len() - i,
    {
        assert(es[i as int] == (cache@[i as int].0@, cache@[i as int].1));
        if cache[i].0.key_eq(key) {
            proof {
                lemma_key_index_unique(es, i as int);
            }
            return Some(i);
        }
        i = i + 1;
    }
    None
}

/// A function whose results are kept by argument.
pub struct Memo<I, O, F> {
    func: F,
    cache: Vec<(I, O)>,
}

impl<I: MapKey + Clone, O: Clone, F: Fn(I) -> O> Memo<I, O, F> {
    /// The cached results, by argument view, in the order they were computed.
    pub closed spec fn entries(&self) -> Seq<(I::V, O)> {
        memo_entries(self.cache@)
    }

    /// The memoized function.
    pub closed spec fn function(&self) -> F {
        self.func
    }

    /// No argument is cached twice, and the function accepts every argument.
    pub closed spec fn wf(&self) -> bool {
        &&& distinct_keys(self.entries())
        &&& forall|i: I| call_requires(self.func, (i,))
    }

    /// `func` with nothing cached.
    pub fn new(func: F) -> (r: Self)
        requires
            forall|i: I| call_requires(func, (i,)),
        ensures
            r.wf(),
            r.function() == func,
            r.entries() == Seq::<(I::V, O)>::empty(),
    {
        let r = Memo { func, cache: Vec::new() };
        assert(r.entries() =~= Seq::<(I::V, O)>::empty());
        r
    }

    /// The function's result for `input`: a copy of the cached one, or
    /// computed and cached.
    pub fn call(&mut self, input: I) -> (r: O)
        requires
            old(self).wf(),
        ensures
            final(self).wf(),
            final(self).function() == old(self).function(),
            match lookup(old(self).entries(), input@) {
                Some(o) => cloned(o, r) && final(self).entries() == old(self).entries(),
                None => {
                    &&& exists|arg: I| cloned(input, arg) && call_ensures(old(self).function(), (arg,), r)
                    &&& final(self).entries().drop_last() == old(self).entries()
                    &&& final(self).entries().len() == old(self).entries().len() + 1
                    &&& final(self).entries().last().0 == input@
                    &&& cloned(r, final(self).entries().last().1)
                },
            },
    {
        let ghost es = self.entries();
        match find_cached(&self.cache, &input) {
            Some(i) => {
                assert(es[i as int] == (self.cache@[i as int].0@, self.cache@[i as int].1));
                self.cache[i].1.clone()
            },
            None => {
                let arg = input.clone();
                let output = (self.func)(arg);
                assert(cloned(input, arg) && call_ensures(self.func, (arg,), output));
                let kept = output.clone();
                let ghost key = input@;
                self.cache.push((input, kept));
                proof {
                    let t = es.push((key, kept));
                    assert(self.entries() =~= t);
                    assert forall|a: int, b: int| 0 <= a < t.len() && 0 <= b < t.len() && a != b implies t[a].0
                        != t[b].0 by {
                        if a < es.len() {
                            assert(t[a] == es[a]);
                        }
                        if b < es.len() {
                            assert(t[b] == es[b]);
                        }
                    }
                    assert(self.entries().drop_last() =~= es);
                }
                output
            },
        }
    }

    /// Forget every cached result.
    pub fn clear(&mut self)
        requires
            old(self).wf(),
        ensures
            final(self).wf(),
            final(self).function() == old(self).function(),
            final(self).entries() == Seq::<(I::V, O)>::empty(),
    {
        self.cache.clear();
        assert(self.entries() =~= Seq::<(I::V, O)>::empty());
    }

    /// The number of cached results.
    pub fn cache_size(&self) -> (r: usize)
        ensures
            r == self.entries().len(),
    {
        self.cache.len()
    }

    /// Forget the cached result for `input`.
    pub fn invalidate(&mut self, input: &I)
        requires
            old(self).wf(),
        ensures
            final(self).wf(),
            final(self).function() == old(self).function(),
            final(self).entries() == remove_key(old(self).entries(), input@),
    {
        let ghost es = self.entries();
        match find_cached(&self.cache, input) {
            Some(i) => {
                self.cache.remove(i);
                proof {
                    assert(self.entries() =~= es.remove(i as int));
                    lemma_remove_keeps_distinct(es, i as int);
                    lemma_key_index_unique(es, i as int);
                }
            },
            None => {},
        }
    }
}

/// The cached results with their last-use stamps, by argument view.
pub open spec fn lru_entries<I: View, O>(cache: Seq<(I, O, u64)>) -> Seq<(I::V, O, u64)> {
    cache.map_values(|e: (I, O, u64)| (e.0@, e.1, e.2))
}

/// The keys of stamped entries.
pub open spec fn lru_keys<K, O>(s: Seq<(K, O, u64)>) -> Seq<(K, u64)> {
    s.map_values(|e: (K, O, u64)| (e.0, e.2))
}

/// `i` is the first entry with the least stamp.
pub open spec fn is_first_oldest<K, O>(s: Seq<(K, O, u64)>, i: int) -> bool {
    &&& 0 <= i < s.len()
    &&& forall|j: int| 0 <= j < s.len() ==> s[i].2 <= #[trigger] s[j].2
    &&& forall|j: int| 0 <= j < i ==> s[i].2 < #[trigger] s[j].2
}

/// A memoized function keeping at most a given number of results; when
/// full, the least recently used result goes.
pub struct LruMemo<I, O, F> {
    func: F,
    cache: Vec<(I, O, u64)>,
    max_size: usize,
    counter: u64,
}

impl<I: MapKey + Clone, O: Clone, F: Fn(I) -> O> LruMemo<I, O, F> {
    /// The cached results with their last-use stamps.
    pub closed spec fn entries(&self) -> Seq<(I::V, O, u64)> {
        lru_entries(self.cache@)
    }

    /// The memoized function.
    pub closed spec fn function(&self) -> F {
        self.func
    }

    /// The bound on the number of results.
    pub closed spec fn max(&self) -> usize {
        self.max_size
    }

    /// The stamp of the next use.
    pub closed spec fn clock(&self) -> u64 {
        self.counter
    }

    /// No argument is cached twice, and the function accepts every argument.
    pub closed spec fn wf(&self) -> bool {
        &&& distinct_keys(lru_keys(self.entries()))
        &&& forall|i: I| call_requires(self.func, (i,))
    }

    /// `func` keeping at most `max_size` results.
    pub fn new(func: F, max_size: usize) -> (r: Self)
        requires
            forall|i: I| call_requires(func, (i,)),
        ensures
            r.wf(),
            r.function() == func,
            r.max() == max_size,
            r.clock() == 0,
            r.entries() == Seq::<(I::V, O, u64)>::empty(),
    {
        let r = LruMemo { func, cache: Vec::new(), max_size, counter: 0 };
        assert(r.entries() =~= Seq::<(I::V, O, u64)>::empty());
        assert(lru_keys(r.entries()) =~= Seq::<(I::V, u64)>::empty());
        r
    }

    /// The position of the first result with the least stamp.
    fn oldest(&self) -> (r: usize)
        requires
            self.cache@.len() > 0,
        ensures
            is_first_oldest(self.entries(), r as int),
    {
        let ghost es = self.entries();
        let mut best: usize = 0;
        let mut i: usize = 1;
        while i < self.cache.len()
            invariant
                es == self.entries(),
                0 < i <= self.cache@.len(),
                best < i,
                forall|j: int| 0 <= j < i ==> es[best as int].2 <= #[trigger] es[j].2,
                forall|j: int| 0 <= j < best ==> es[best as int].2 < #[trigger] es[j].2,
            decreases self.cache@.len() - i,
        {
            assert(es[i as int].2 == self.cache@[i as int].2);
            assert(es[best as int].2 == self.cache@[best as int].2);
            if self.cache[i].2 < self.cache[best].2 {
                best = i;
            }
            i = i + 1;
        }
        best
    }

    /// Position of the cached result for `key`.
    fn find(&self, key: &I) -> (r: Option<usize>)
        requires
            distinct_keys(lru_keys(self.entries())),
        ensures
            match r {
                Some(i) => i < self.cache@.len() && has_key(lru_keys(self.entries()), key@) && key_index(
                    lru_keys(self.entries()),
                    key@,
                ) == i,
                None => forall|j: int| 0 <= j < self.entries().len() ==> (#[trigger] lru_keys(self.entries())[j]).0 != key@,
            },
    {
        let ghost ks = lru_keys(self.entries());
        let mut i: usize = 0;
        while i < self.cache.len()
            invariant
                ks == lru_keys(self.entries()),
                distinct_keys(ks),
                i <= self.cache@.len(),
                forall|j: int| 0 <= j < i ==> (#[trigger] ks[j]).0 != key@,
            decreases self.cache@.len() - i,
        {
            assert(ks[i as int].0 == self.cache@[i as int].0@);
            if self.cache[i].0.key_eq(key) {
                proof {
                    lemma_key_index_unique(ks, i as int);
                }
                return Some(i);
            }
            i = i + 1;
        }
        None
    }

    /// The function's result for `input`: a copy of the cached one (which
    /// gets the current stamp), or computed and cached, first dropping the
    /// least recently used result when full.
    pub fn call(&mut self, input: I) -> (r: O)
        requires
            old(self).wf(),
        ensures
            final(self).wf(),
            final(self).function() == old(self).function(),
            final(self).max() == old(self).max(),
            final(self).clock() == vstd::wrapping::u64_specs::wrapping_add(old(self).clock(), 1),
            old(self).max() > 0 && old(self).entries().len() <= old(self).max() ==> final(self).entries().len()
                <= final(self).max(),
            match lookup(lru_keys(old(self).entries()), input@) {
                Some(_) => {
                    let i = key_index(lru_keys(old(self).entries()), input@);
                    &&& cloned(old(self).entries()[i].1, r)
                    &&& final(self).entries() == old(self).entries().update(
                        i,
                        (input@, old(self).entries()[i].1, old(self).clock()),
                    )
                },
                None => {
                    &&& exists|arg: I| cloned(input, arg) && call_ensures(old(self).function(), (arg,), r)
                    &&& exists|kept: O| {
                        &&& cloned(r, kept)
                        &&& if old(self).entries().len() >= old(self).max() && old(self).entries().len() > 0 {
                            exists|k: int|
                                is_first_oldest(old(self).entries(), k) && final(self).entries()
                                    == old(self).entries().remove(k).push((input@, kept, old(self).clock()))
                        } else {
                            final(self).entries() == old(self).entries().push((input@, kept, old(self).clock()))
                        }
                    }
                },
            },
    {
        let ghost es = self.entries();
        let ghost ks = lru_keys(es);
        let time = self.counter;
        self.counter = self.counter.wrapping_add(1);
        let found = self.find(&input);
        match found {
            Some(i) => {
                let output = self.cache[i].1.clone();
                let ghost k = self.cache@[i as int].0;
                self.cache[i].2 = time;
                proof {
                    let t = es.update(i as int, (input@, es[i as int].1, time));
                    assert(self.entries() =~= t);
                    assert(lru_keys(t) =~= ks.update(i as int, (input@, time)));
                    assert forall|a: int, b: int|
                        0 <= a < ks.len() && 0 <= b < ks.len() && a != b implies lru_keys(t)[a].0 != lru_keys(
                        t,
                    )[b].0 by {
                        assert(lru_keys(t)[a].0 == ks[a].0);
                        assert(lru_keys(t)[b].0 == ks[b].0);
                    }
                }
                output
            },
            None => {
                let arg = input.clone();
                let output = (self.func)(arg);
                assert(cloned(input, arg) && call_ensures(self.func, (arg,), output));
                let kept = output.clone();
                let ghost key = input@;
                let ghost mut base = es;
                let ghost mut removed_at: int = -1;
                if self.cache.len() >= self.max_size && self.cache.len() > 0 {
                    let k = self.oldest();
                    self.cache.remove(k);
                    proof {
                        removed_at = k as int;
                        base = es.remove(k as int);
                        assert(self.entries() =~= base);
                        assert forall|j: int| 0 <= j < base.len() implies (#[trigger] base[j]).0 != key by {
                            let o = if j < k { j } else { j + 1 };
                            assert(base[j] == es[o]);
                            assert(ks[o].0 == es[o].0);
                        }
                        assert(exists|kk: int| is_first_oldest(es, kk) && base == es.remove(kk));
                    }
                } else {
                    proof {
                        assert(self.entries() =~= base);
                        assert forall|j: int| 0 <= j < base.len() implies (#[trigger] base[j]).0 != key by {
                            assert(ks[j].0 == es[j].0);
                        }
                    }
                }
                self.cache.push((input, kept, time));
                proof {
                    let t = base.push((key, kept, time));
                    assert(self.entries() =~= t);
                    assert(cloned(output, kept));
                    if removed_at >= 0 {
                        assert(is_first_oldest(es, removed_at) && self.entries() == es.remove(removed_at).push(
                            (key, kept, time),
                        ));
                    }
                    let tk = lru_keys(t);
                    let bk = lru_keys(base);
                    assert forall|a: int, b: int| 0 <= a < tk.len() && 0 <= b < tk.len() && a != b implies tk[a].0
                        != tk[b].0 by {
                        if a < base.len() && b < base.len() {
                            assert(tk[a].0 == base[a].0);
                            assert(tk[b].0 == base[b].0);
                            if self.cache@.len() <= es.len() {
                            }
                            assert(bk[a].0 == base[a].0);
                            assert(bk[b].0 == base[b].0);
                            lemma_keys_of_sub(es, base, a, b);
                        } else if a < base.len() {
                            assert(tk[a].0 == base[a].0);
                        } else {
                            assert(tk[b].0 == base[b].0);
                        }
                    }
                }
                output
            },
        }
    }

    /// Forget every cached result.
    pub fn clear(&mut self)
        requires
            old(self).wf(),
        ensures
            final(self).wf(),
            final(self).function() == old(self).function(),
            final(self).max() == old(self).max(),
            final(self).entries() == Seq::<(I::V, O, u64)>::empty(),
    {
        self.cache.clear();
        assert(self.entries() =~= Seq::<(I::V, O, u64)>::empty());
        assert(lru_keys(self.entries()) =~= Seq::<(I::V, u64)>::empty());
    }

    /// The number of cached results.
    pub fn cache_size(&self) -> (r: usize)
        ensures
            r == self.entries().len(),
    {
        self.cache.len()
    }
}

/// The cached results with the time each was computed, by argument view.
pub open spec fn ttl_entries<I: View, O>(cache: Seq<(I, O, Instant)>) -> Seq<(I::V, O, Instant)> {
    cache.map_values(|e: (I, O, Instant)| (e.0@, e.1, e.2))
}

/// The keys of timed entries.
pub open spec fn ttl_keys<K, O>(s: Seq<(K, O, Instant)>) -> Seq<(K, Instant)> {
    s.map_values(|e: (K, O, Instant)| (e.0, e.2))
}

/// `sub` keeps some of the entries of `s`, in their order.
pub open spec fn kept_in_order<A>(sub: Seq<A>, s: Seq<A>) -> bool {
    exists|idx: Seq<int>|
        idx.len() == sub.len() && (forall|a: int, b: int| 0 <= a < b < idx.len() ==> idx[a] < idx[b])
            && forall|a: int| 0 <= a < idx.len() ==> 0 <= #[trigger] idx[a] < s.len() && sub[a] == s[idx[a]]
}

/// A memoized function whose results are used only while younger than a
/// time-to-live; whether a result is still young is read from the clock.
pub struct TtlMemo<I, O, F> {
    func: F,
    cache: Vec<(I, O, Instant)>,
    /// How long a result stays young, in nanoseconds.
    ttl_nanos: u128,
}

/// How long before `now` the instant `created` was, in nanoseconds (zero
/// where it is later); the clock readings decide it.
fn age_nanos(now: &Instant, created: &Instant) -> u128 {
    duration_nanos(&instant_duration_since(now, created))
}

/// The outcome of a call on a memo whose results stay young for `ttl`
/// nanoseconds, with cached results `before`, where the result cached for
/// `input`, if any, is `age` nanoseconds old and `now` is the time: a copy
/// of the cached result while it is younger than `ttl`, the cache
/// unchanged; otherwise `f`'s result for a copy of `input`, cached with
/// `now` in place of the old one or after the others.
pub open spec fn ttl_step<I: View + Clone, O: Clone, F: Fn(I) -> O>(
    before: Seq<(I::V, O, Instant)>,
    after: Seq<(I::V, O, Instant)>,
    input: I,
    r: O,
    f: F,
    ttl: u128,
    age: u128,
    now: Instant,
) -> bool {
    let ks = ttl_keys(before);
    if has_key(ks, input@) && age < ttl {
        cloned(before[key_index(ks, input@)].1, r) && after == before
    } else {
        &&& exists|arg: I| cloned(input, arg) && call_ensures(f, (arg,), r)
        &&& if has_key(ks, input@) {
            let k = key_index(ks, input@);
            &&& after.len() == before.len()
            &&& after == before.update(k, (input@, after[k].1, now))
            &&& cloned(r, after[k].1)
        } else {
            &&& after.len() == before.len() + 1
            &&& after.drop_last() == before
            &&& after.last().0 == input@
            &&& after.last().2 == now
            &&& cloned(r, after.last().1)
        }
    }
}

impl<I: MapKey + Clone, O: Clone, F: Fn(I) -> O> TtlMemo<I, O, F> {
    /// The cached results with their computation times.
    pub closed spec fn entries(&self) -> Seq<(I::V, O, Instant)> {
        ttl_entries(self.cache@)
    }

    /// The memoized function.
    pub closed spec fn function(&self) -> F {
        self.func
    }

    /// How long a result stays young, in nanoseconds.
    pub closed spec fn ttl_view(&self) -> u128 {
        self.ttl_nanos
    }

    /// No argument is cached twice, and the function accepts every argument.
    pub closed spec fn wf(&self) -> bool {
        &&& distinct_keys(ttl_keys(self.entries()))
        &&& forall|i: I| call_requires(self.func, (i,))
    }

    /// `func` with results kept for `ttl`, counted in whole nanoseconds.
    pub fn new(func: F, ttl: Duration) -> (r: Self)
        requires
            forall|i: I| call_requires(func, (i,)),
        ensures
            r.wf(),
            r.function() == func,
            r.entries() == Seq::<(I::V, O, Instant)>::empty(),
    {
        TtlMemo::new_nanos(func, duration_nanos(&ttl))
    }

    /// `func` with results kept for `ttl_nanos` nanoseconds.
    pub fn new_nanos(func: F, ttl_nanos: u128) -> (r: Self)
        requires
            forall|i: I| call_requires(func, (i,)),
        ensures
            r.wf(),
            r.function() == func,
            r.ttl_view() == ttl_nanos,
            r.entries() == Seq::<(I::V, O, Instant)>::empty(),
    {
        let r = TtlMemo { func, cache: Vec::new(), ttl_nanos };
        assert(r.entries() =~= Seq::<(I::V, O, Instant)>::empty());
        assert(ttl_keys(r.entries()) =~= Seq::<(I::V, Instant)>::empty());
        r
    }

    /// Whether a result computed at `created` is still young at `now`.
    fn fresh(&self, now: &Instant, created: &Instant) -> bool {
        age_nanos(now, created) < self.ttl_nanos
    }

    /// The position of the result cached for `input`, if any.
    fn find_cached(&self, input: &I) -> (r: Option<usize>)
        requires
            distinct_keys(ttl_keys(self.entries())),
        ensures
            match r {
                Some(k) => k < self.cache@.len() && has_key(ttl_keys(self.entries()), input@) && key_index(ttl_keys(self.entries()), input@) == k,
                None => !has_key(ttl_keys(self.entries()), input@),
            },
    {
        let ghost ks = ttl_keys(self.entries());
        let mut i: usize = 0;
        while i < self.cache.len()
            invariant
                ks == ttl_keys(self.entries()),
                distinct_keys(ks),
                i <= self.cache@.len(),
                forall|j: int| 0 <= j < i ==> (#[trigger] ks[j]).0 != input@,
            decreases self.cache@.len() - i,
        {
            assert(ks[i as int].0 == self.cache@[i as int].0@);
            if self.cache[i].0.key_eq(input) {
                proof {
                    lemma_key_index_unique(ks, i as int);
                }
                return Some(i);
            }
            i = i + 1;
        }
        None
    }

    /// The function's result for `input` now: a copy of the cached one
    /// while it is younger than the time to live, otherwise computed and
    /// cached with the current time. How old the cached result is depends
    /// on the clock.
    pub fn call(&mut self, input: I) -> (r: O)
        requires
            old(self).wf(),
        ensures
            final(self).wf(),
            final(self).function() == old(self).function(),
            final(self).ttl_view() == old(self).ttl_view(),
            exists|age: u128, now: Instant| #[trigger] ttl_step(
                old(self).entries(),
                final(self).entries(),
                input,
                r,
                old(self).function(),
                old(self).ttl_view(),
                age,
                now,
            ),
    {
        let now = instant_now();
        let age = match self.find_cached(&input) {
            Some(k) => age_nanos(&now, &self.cache[k].2),
            None => 0,
        };
        self.call_aged(input, age, now)
    }

    /// The function's result for `input` at `now`, where the result cached
    /// for it, if any, is `age_nanos` nanoseconds old: see `ttl_step`.
    pub fn call_aged(&mut self, input: I, age_nanos: u128, now: Instant) -> (r: O)
        requires
            old(self).wf(),
        ensures
            final(self).wf(),
            final(self).function() == old(self).function(),
            final(self).ttl_view() == old(self).ttl_view(),
            ttl_step(old(self).entries(), final(self).entries(), input, r, old(self).function(), old(self).ttl_view(), age_nanos, now),
    {
        let ghost es = self.entries();
        let ghost ks = ttl_keys(es);
        let mut found: Option<usize> = None;
        let mut i: usize = 0;
        while i < self.cache.len()
            invariant_except_break
                found is None,
            invariant
                es == self.entries(),
                ks == ttl_keys(es),
                distinct_keys(ks),
                i <= self.cache@.len(),
                forall|j: int| 0 <= j < i ==> (#[trigger] ks[j]).0 != input@,
            ensures
                es == self.entries(),
                match found {
                    Some(k) => k < self.cache@.len() && has_key(ks, input@) && key_index(ks, input@) == k,
                    None => !has_key(ks, input@),
                },
            decreases self.cache@.len() - i,
        {
            assert(ks[i as int].0 == self.cache@[i as int].0@);
            if self.cache[i].0.key_eq(&input) {
                proof {
                    lemma_key_index_unique(ks, i as int);
                }
                found = Some(i);
                break;
            }
            i = i + 1;
        }
        match found {
            Some(k) => {
                if age_nanos < self.ttl_nanos {
                    assert(es[k as int].1 == self.cache@[k as int].1);
                    return self.cache[k].1.clone();
                }
            },
            None => {},
        }
        let arg = input.clone();
        let output = (self.func)(arg);
        assert(cloned(input, arg) && call_ensures(self.func, (arg,), output));
        let kept = output.clone();
        let ghost key = input@;
        match found {
            Some(k) => {
                self.cache[k] = (input, kept, now);
                proof {
                    let t = es.update(k as int, (key, kept, now));
                    assert(self.entries() =~= t);
                    assert forall|a: int, b: int|
                        0 <= a < t.len() && 0 <= b < t.len() && a != b implies ttl_keys(t)[a].0 != ttl_keys(
                        t,
                    )[b].0 by {
                        assert(ttl_keys(t)[a].0 == ks[a].0);
                        assert(ttl_keys(t)[b].0 == ks[b].0);
                    }
                }
            },
            None => {
                self.cache.push((input, kept, now));
                proof {
                    let t = es.push((key, kept, now));
                    assert(self.entries() =~= t);
                    assert forall|a: int, b: int|
                        0 <= a < t.len() && 0 <= b < t.len() && a != b implies ttl_keys(t)[a].0 != ttl_keys(
                        t,
                    )[b].0 by {
                        if a < es.len() {
                            assert(ttl_keys(t)[a].0 == ks[a].0);
                        }
                        if b < es.len() {
                            assert(ttl_keys(t)[b].0 == ks[b].0);
                        }
                    }
                }
            },
        }
        assert(cloned(output, kept));
        proof {
            let after = self.entries();
            assert(exists|a: I| cloned(input, a) && call_ensures(old(self).function(), (a,), output));
            if has_key(ks, input@) {
                let k = key_index(ks, input@);
                assert(after[k].1 == kept);
                assert(after == es.update(k, (input@, after[k].1, now)));
            } else {
                assert(after.last().2 == now);
                assert(after.drop_last() =~= es);
            }
        }
        output
    }

    /// Forget the results that are no longer young; the others stay in order.
    pub fn cleanup(&mut self)
        requires
            old(self).wf(),
        ensures
            final(self).wf(),
            final(self).function() == old(self).function(),
            kept_in_order(final(self).entries(), old(self).entries()),
    {
        let ghost es = self.entries();
        let now = instant_now();
        let mut old_cache: Vec<(I, O, Instant)> = Vec::new();
        std::mem::swap(&mut old_cache, &mut self.cache);
        let mut i: usize = 0;
        let ghost mut idx: Seq<int> = Seq::empty();
        assert(self.entries() =~= Seq::<(I::V, O, Instant)>::empty());
        let mut rest = old_cache;
        let ghost orig = rest@;
        let n = rest.len();
        while rest.len() > 0
            invariant
                n == orig.len(),
                self.func == old(self).func,
                es == ttl_entries(orig),
                distinct_keys(ttl_keys(es)),
                rest@ == orig.subrange(i as int, orig.len() as int),
                i <= orig.len(),
                idx.len() == self.cache@.len(),
                forall|a: int, b: int| 0 <= a < b < idx.len() ==> idx[a] < idx[b],
                forall|a: int| 0 <= a < idx.len() ==> 0 <= #[trigger] idx[a] < i && self.entries()[a] == es[idx[a]],
                forall|i: I| call_requires(self.func, (i,)),
            decreases rest@.len(),
        {
            let e = rest.remove(0);
            assert(es[i as int] == (e.0@, e.1, e.2));
            if self.fresh(&now, &e.2) {
                proof {
                    idx = idx.push(i as int);
                }
                self.cache.push(e);
            }
            i = i + 1;
            assert(rest@ =~= orig.subrange(i as int, orig.len() as int));
        }
        proof {
            let f = self.entries();
            assert(kept_in_order(f, es));
            assert forall|a: int, b: int|
                0 <= a < f.len() && 0 <= b < f.len() && a != b implies ttl_keys(f)[a].0 != ttl_keys(f)[b].0 by {
                assert(ttl_keys(f)[a].0 == f[a].0);
                assert(ttl_keys(f)[b].0 == f[b].0);
                assert(ttl_keys(es)[idx[a]].0 == es[idx[a]].0);
                assert(ttl_keys(es)[idx[b]].0 == es[idx[b]].0);
                if a < b {
                    assert(idx[a] < idx[b]);
                } else {
                    assert(idx[b] < idx[a]);
                }
            }
        }
    }

    /// Forget every cached result.
    pub fn clear(&mut self)
        requires
            old(self).wf(),
        ensures
            final(self).wf(),
            final(self).function() == old(self).function(),
            final(self).entries() == Seq::<(I::V, O, Instant)>::empty(),
    {
        self.cache.clear();
        assert(self.entries() =~= Seq::<(I::V, O, Instant)>::empty());
        assert(ttl_keys(self.entries()) =~= Seq::<(I::V, Instant)>::empty());
    }
}

/// A two-argument function whose results are kept by argument pair.
pub struct Memo2<I1, I2, O, F> {
    func: F,
    cache: Vec<((I1, I2), O)>,
}

impl<I1: MapKey + Clone, I2: MapKey + Clone, O: Clone, F: Fn(I1, I2) -> O> Memo2<I1, I2, O, F> {
    /// The cached results by argument views.
    pub closed spec fn entries(&self) -> Seq<((I1::V, I2::V), O)> {
        memo_entries(self.cache@)
    }

    /// The memoized function.
    pub closed spec fn function(&self) -> F {
        self.func
    }

    /// No argument pair is cached twice, and the function accepts every pair.
    pub closed spec fn wf(&self) -> bool {
        &&& distinct_keys(self.entries())
        &&& forall|a: I1, b: I2| call_requires(self.func, (a, b))
    }

    /// `func` with nothing cached.
    pub fn new(func: F) -> (r: Self)
        requires
            forall|a: I1, b: I2| call_requires(func, (a, b)),
        ensures
            r.wf(),
            r.function() == func,
            r.entries() == Seq::<((I1::V, I2::V), O)>::empty(),
    {
        let r = Memo2 { func, cache: Vec::new() };
        assert(r.entries() =~= Seq::<((I1::V, I2::V), O)>::empty());
        r
    }

    /// The function's result for `(i1, i2)`: a copy of the cached one, or
    /// computed and cached.
    pub fn call(&mut self, i1: I1, i2: I2) -> (r: O)
        requires
            old(self).wf(),
        ensures
            final(self).wf(),
            final(self).function() == old(self).function(),
            match lookup(old(self).entries(), (i1@, i2@)) {
                Some(o) => cloned(o, r) && final(self).entries() == old(self).entries(),
                None => {
                    &&& call_ensures(old(self).function(), (i1, i2), r)
                    &&& final(self).entries().drop_last() == old(self).entries()
                    &&& final(self).entries().len() == old(self).entries().len() + 1
                    &&& final(self).entries().last().0 == (i1@, i2@)
                    &&& cloned(r, final(self).entries().last().1)
                },
            },
    {
        let ghost es = self.entries();
        let key = (i1.duplicate(), i2.duplicate());
        match find_cached(&self.cache, &key) {
            Some(i) => {
                assert(es[i as int] == (self.cache@[i as int].0@, self.cache@[i as int].1));
                self.cache[i].1.clone()
            },
            None => {
                let output = (self.func)(i1, i2);
                let kept = output.clone();
                let ghost kv = key@;
                self.cache.push((key, kept));
                proof {
                    let t = es.push((kv, kept));
                    assert(self.entries() =~= t);
                    assert forall|a: int, b: int| 0 <= a < t.len() && 0 <= b < t.len() && a != b implies t[a].0
                        != t[b].0 by {
                        if a < es.len() {
                            assert(t[a] == es[a]);
                        }
                        if b < es.len() {
                            assert(t[b] == es[b]);
                        }
                    }
                    assert(self.entries().drop_last() =~= es);
                }
                output
            },
        }
    }

    /// Forget every cached result.
    pub fn clear(&mut self)
        requires
            old(self).wf(),
        ensures
            final(self).wf(),
            final(self).function() == old(self).function(),
            final(self).entries() == Seq::<((I1::V, I2::V), O)>::empty(),
    {
        self.cache.clear();
        assert(self.entries() =~= Seq::<((I1::V, I2::V), O)>::empty());
    }
}

/// `func` memoized.
pub fn memoize_fn<I: MapKey + Clone, O: Clone, F: Fn(I) -> O>(func: F) -> (r: Memo<I, O, F>)
    requires
        forall|i: I| call_requires(func, (i,)),
    ensures
        r.wf(),
        r.function() == func,
        r.entries() == Seq::<(I::V, O)>::empty(),
{
    Memo::new(func)
}

/// `func` memoized, keeping at most `max_size` results.
pub fn memoize_lru<I: MapKey + Clone, O: Clone, F: Fn(I) -> O>(func: F, max_size: usize) -> (r: LruMemo<I, O, F>)
    requires
        forall|i: I| call_requires(func, (i,)),
    ensures
        r.wf(),
        r.function() == func,
        r.max() == max_size,
        r.entries() == Seq::<(I::V, O, u64)>::empty(),
{
    LruMemo::new(func, max_size)
}

/// `func` memoized, results used while younger than `ttl`.
pub fn memoize_ttl<I: MapKey + Clone, O: Clone, F: Fn(I) -> O>(func: F, ttl: Duration) -> (r: TtlMemo<I, O, F>)
    requires
        forall|i: I| call_requires(func, (i,)),
    ensures
        r.wf(),
        r.function() == func,
        r.entries() == Seq::<(I::V, O, Instant)>::empty(),
{
    TtlMemo::new(func, ttl)
}

/// Removing an entry keeps the keys distinct, and removes exactly that key.
proof fn lemma_remove_keeps_distinct<K, A>(s: Seq<(K, A)>, i: int)
    requires
        distinct_keys(s),
        0 <= i < s.len(),
    ensures
        distinct_keys(s.remove(i)),
        remove_key(s, s[i].0) == s.remove(i),
{
    lemma_key_index_unique(s, i);
    let t = s.remove(i);
    assert forall|a: int, b: int| 0 <= a < t.len() && 0 <= b < t.len() && a != b implies t[a].0 != t[b].0 by {
        let oa = if a < i { a } else { a + 1 };
        let ob = if b < i { b } else { b + 1 };
        assert(t[a] == s[oa]);
        assert(t[b] == s[ob]);
    }
}

/// Two entries of a list taken from one with distinct keys (by removing at
/// most one entry) have different keys.
proof fn lemma_keys_of_sub<K, O>(es: Seq<(K, O, u64)>, base: Seq<(K, O, u64)>, a: int, b: int)
    requires
        distinct_keys(lru_keys(es)),
        base == es || exists|k: int| 0 <= k < es.len() && base == es.remove(k),
        0 <= a < base.len(),
        0 <= b < base.len(),
        a != b,
    ensures
        base[a].0 != base[b].0,
{
    let ks = lru_keys(es);
    if base == es {
        assert(ks[a].0 == es[a].0);
        assert(ks[b].0 == es[b].0);
    } else {
        let k = choose|k: int| 0 <= k < es.len() && base == es.remove(k);
        let oa = if a < k { a } else { a + 1 };
        let ob = if b < k { b } else { b + 1 };
        assert(base[a] == es[oa]);
        assert(base[b] == es[ob]);
        assert(ks[oa].0 == es[oa].0);
        assert(ks[ob].0 == es[ob].0);
    }
}

} // verus!
