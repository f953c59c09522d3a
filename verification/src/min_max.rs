//! Minimum / maximum utilities: pairwise extrema, extrema of slices,
//! their positions, and a running tracker, over any totally ordered type.

use vstd::prelude::*;
use vstd::laws_cmp::{obeys_cmp, obeys_cmp_ord, obeys_cmp_partial_ord, obeys_partial_cmp_spec_properties};
use vstd::laws_eq::obeys_eq_spec_properties;
use vstd::std_specs::cmp::{OrdSpec, PartialEqSpec, PartialOrdSpec};
use std::cmp::Ordering;

verus! {

/// Errors of the min/max helpers.
#[derive(Debug, Clone, Copy, PartialEq, Eq)]
pub enum MinMaxError {
    Empty,
    NoComparable,
}

/// `T`'s `Ord` is the total order that the trait's documentation asks of
/// every implementation, and its `PartialOrd` agrees with it.
pub open spec fn total_order<T: Ord>() -> bool {
    obeys_cmp::<T>()
}

/// `a` comes no later than `b` in `T`'s order.
pub open spec fn le_in<T: Ord>(a: T, b: T) -> bool {
    a.partial_cmp_spec(&b) == Some(Ordering::Less) || a.partial_cmp_spec(&b) == Some(Ordering::Equal)
}

/// `a` comes strictly before `b` in `T`'s order.
pub open spec fn lt_in<T: Ord>(a: T, b: T) -> bool {
    a.partial_cmp_spec(&b) == Some(Ordering::Less)
}

/// A total order compares every pair: `a` before or with `b`, or `b`
/// strictly before `a`, never both.
pub proof fn lemma_order_total<T: Ord>(a: T, b: T)
    requires
        total_order::<T>(),
    ensures
        T::obeys_partial_cmp_spec(),
        a.partial_cmp_spec(&b) is Some,
        le_in(a, b) <==> !lt_in(b, a),
        lt_in(a, b) ==> le_in(a, b),
        le_in(a, a),
{
    reveal(obeys_cmp_ord);
    reveal(obeys_cmp_partial_ord);
    reveal(obeys_partial_cmp_spec_properties);
    reveal(obeys_eq_spec_properties);
    assert(a.partial_cmp_spec(&b) == Some(a.cmp_spec(&b)));
    assert(b.partial_cmp_spec(&a) == Some(b.cmp_spec(&a)));
    assert(a.partial_cmp_spec(&a) == Some(a.cmp_spec(&a)));
    assert(a.eq_spec(&a) <==> a.partial_cmp_spec(&a) == Some(Ordering::Equal));
    if !a.eq_spec(&a) {
        assert(a.partial_cmp_spec(&a) == Some(Ordering::Less) <==> a.partial_cmp_spec(&a) == Some(Ordering::Greater));
    }
}

/// The order is transitive, and strictly so where either step is strict.
pub proof fn lemma_order_trans<T: Ord>(a: T, b: T, c: T)
    requires
        total_order::<T>(),
        le_in(a, b),
        le_in(b, c),
    ensures
        le_in(a, c),
        lt_in(a, b) || lt_in(b, c) ==> lt_in(a, c),
{
    reveal(obeys_cmp_ord);
    reveal(obeys_cmp_partial_ord);
    reveal(obeys_partial_cmp_spec_properties);
    reveal(obeys_eq_spec_properties);
    assert(a.partial_cmp_spec(&c) == Some(a.cmp_spec(&c)));
    assert(c.partial_cmp_spec(&a) == Some(c.cmp_spec(&a)));
    assert(a.partial_cmp_spec(&b) == Some(a.cmp_spec(&b)));
    assert(b.partial_cmp_spec(&c) == Some(b.cmp_spec(&c)));
    assert(c.partial_cmp_spec(&b) == Some(c.cmp_spec(&b)));
    assert(b.partial_cmp_spec(&a) == Some(b.cmp_spec(&a)));
}


/// The smaller of `a` and `b` in `T`'s order (`a` on a tie).
pub open spec fn min_of<T: Ord>(a: T, b: T) -> T {
    if le_in(a, b) { a } else { b }
}

/// The larger of `a` and `b` in `T`'s order (`a` on a tie).
pub open spec fn max_of<T: Ord>(a: T, b: T) -> T {
    if le_in(b, a) { a } else { b }
}

/// `i` indexes a value of `s` no later than any other.
pub open spec fn is_min_index<T: Ord>(s: Seq<T>, i: int) -> bool {
    0 <= i < s.len() && forall|j: int| 0 <= j < s.len() ==> #[trigger] le_in(s[i], s[j])
}

/// `i` indexes a value of `s` no earlier than any other.
pub open spec fn is_max_index<T: Ord>(s: Seq<T>, i: int) -> bool {
    0 <= i < s.len() && forall|j: int| 0 <= j < s.len() ==> #[trigger] le_in(s[j], s[i])
}

/// `i` is the first position of the minimum of `s`.
pub open spec fn is_first_min_index<T: Ord>(s: Seq<T>, i: int) -> bool {
    is_min_index(s, i) && forall|j: int| 0 <= j < i ==> #[trigger] lt_in(s[i], s[j])
}

/// `i` is the first position of the maximum of `s`.
pub open spec fn is_first_max_index<T: Ord>(s: Seq<T>, i: int) -> bool {
    is_max_index(s, i) && forall|j: int| 0 <= j < i ==> #[trigger] lt_in(s[j], s[i])
}

/// `i` is the last position of the maximum of `s`.
pub open spec fn is_last_max_index<T: Ord>(s: Seq<T>, i: int) -> bool {
    is_max_index(s, i) && forall|j: int| i < j < s.len() ==> #[trigger] lt_in(s[j], s[i])
}

/// `m` is a least value of `s`.
pub open spec fn is_seq_min<T: Ord>(s: Seq<T>, m: T) -> bool {
    s.contains(m) && forall|j: int| 0 <= j < s.len() ==> #[trigger] le_in(m, s[j])
}

/// `m` is a greatest value of `s`.
pub open spec fn is_seq_max<T: Ord>(s: Seq<T>, m: T) -> bool {
    s.contains(m) && forall|j: int| 0 <= j < s.len() ==> #[trigger] le_in(s[j], m)
}

/// Minimum of two values.
pub fn min<T: Ord>(a: T, b: T) -> (r: T)
    requires
        total_order::<T>(),
    ensures
        r == min_of(a, b),
{
    proof {
        lemma_order_total(a, b);
    }
    if a <= b {
        a
    } else {
        b
    }
}

/// Maximum of two values.
pub fn max<T: Ord>(a: T, b: T) -> (r: T)
    requires
        total_order::<T>(),
    ensures
        r == max_of(a, b),
{
    proof {
        lemma_order_total(a, b);
        lemma_order_total(b, a);
    }
    if a >= b {
        a
    } else {
        b
    }
}

/// Minimum of three values.
pub fn min3<T: Ord>(a: T, b: T, c: T) -> (r: T)
    requires
        total_order::<T>(),
    ensures
        r == min_of(min_of(a, b), c),
        le_in(r, a) && le_in(r, b) && le_in(r, c),
        r == a || r == b || r == c,
{
    proof {
        lemma_order_total(a, b);
        lemma_order_total(b, a);
        lemma_order_total(a, c);
        lemma_order_total(c, a);
        lemma_order_total(b, c);
        lemma_order_total(c, b);
        lemma_order_total(c, c);
        if le_in(a, b) && le_in(c, a) {
            lemma_order_trans(c, a, b);
        }
        if le_in(b, a) && le_in(c, b) {
            lemma_order_trans(c, b, a);
        }
        if le_in(a, b) && le_in(a, c) {
        }
        if lt_in(b, a) && le_in(b, c) {
            lemma_order_trans(b, c, c);
        }
    }
    min(min(a, b), c)
}

/// Maximum of three values.
pub fn max3<T: Ord>(a: T, b: T, c: T) -> (r: T)
    requires
        total_order::<T>(),
    ensures
        r == max_of(max_of(a, b), c),
        le_in(a, r) && le_in(b, r) && le_in(c, r),
        r == a || r == b || r == c,
{
    proof {
        lemma_order_total(a, b);
        lemma_order_total(b, a);
        lemma_order_total(a, c);
        lemma_order_total(c, a);
        lemma_order_total(b, c);
        lemma_order_total(c, b);
        lemma_order_total(c, c);
        if le_in(b, a) && le_in(a, c) {
            lemma_order_trans(b, a, c);
        }
        if le_in(a, b) && le_in(b, c) {
            lemma_order_trans(a, b, c);
        }
        if le_in(b, a) && le_in(c, a) {
            lemma_order_trans(b, a, a);
        }
        if le_in(a, b) && le_in(c, b) {
            lemma_order_trans(a, b, b);
        }
    }
    max(max(a, b), c)
}

/// Both the minimum and the maximum of two values, in that order.
pub fn minmax<T: Ord>(a: T, b: T) -> (r: (T, T))
    requires
        total_order::<T>(),
    ensures
        r == (if le_in(a, b) { (a, b) } else { (b, a) }),
        le_in(r.0, r.1),
{
    proof {
        lemma_order_total(a, b);
        lemma_order_total(b, a);
    }
    if a <= b {
        (a, b)
    } else {
        (b, a)
    }
}

/// The value of `a` or `b` with the smaller key (the first on a tie).
pub fn min_by_key<T, K: Ord, F: Fn(&T) -> K>(a: T, b: T, f: F) -> (r: T)
    requires
        total_order::<K>(),
        f.requires((&a,)),
        f.requires((&b,)),
    ensures
        exists|ka: K, kb: K|
            f.ensures((&a,), ka) && f.ensures((&b,), kb) && (if le_in(ka, kb) { r == a } else { r == b }),
{
    let ka = f(&a);
    let kb = f(&b);
    proof {
        lemma_order_total(ka, kb);
    }
    if ka <= kb {
        a
    } else {
        b
    }
}

/// The value of `a` or `b` with the larger key (the first on a tie).
pub fn max_by_key<T, K: Ord, F: Fn(&T) -> K>(a: T, b: T, f: F) -> (r: T)
    requires
        total_order::<K>(),
        f.requires((&a,)),
        f.requires((&b,)),
    ensures
        exists|ka: K, kb: K|
            f.ensures((&a,), ka) && f.ensures((&b,), kb) && (if le_in(kb, ka) { r == a } else { r == b }),
{
    let ka = f(&a);
    let kb = f(&b);
    proof {
        lemma_order_total(ka, kb);
        lemma_order_total(kb, ka);
    }
    if ka >= kb {
        a
    } else {
        b
    }
}

/// `a` unless the comparator says it is greater than `b`.
pub fn min_by<T, F: Fn(&T, &T) -> std::cmp::Ordering>(a: T, b: T, f: F) -> (r: T)
    requires
        f.requires((&a, &b)),
    ensures
        exists|o: std::cmp::Ordering|
            f.ensures((&a, &b), o) && (if o != std::cmp::Ordering::Greater { r == a } else { r == b }),
{
    let o = f(&a, &b);
    match o {
        std::cmp::Ordering::Greater => b,
        _ => a,
    }
}

/// `a` unless the comparator says it is less than `b`.
pub fn max_by<T, F: Fn(&T, &T) -> std::cmp::Ordering>(a: T, b: T, f: F) -> (r: T)
    requires
        f.requires((&a, &b)),
    ensures
        exists|o: std::cmp::Ordering|
            f.ensures((&a, &b), o) && (if o != std::cmp::Ordering::Less { r == a } else { r == b }),
{
    let o = f(&a, &b);
    match o {
        std::cmp::Ordering::Less => b,
        _ => a,
    }
}

/// Position of the first minimum of a slice.
fn first_min_index<T: Ord>(items: &[T]) -> (i: usize)
    requires
        total_order::<T>(),
        items@.len() > 0,
    ensures
        is_first_min_index(items@, i as int),
{
    let mut best: usize = 0;
    let mut k: usize = 1;
    proof {
        lemma_order_total(items@[0], items@[0]);
    }
    while k < items.len()
        invariant
            total_order::<T>(),
            0 <= best < k <= items@.len(),
            forall|j: int| 0 <= j < k ==> #[trigger] le_in(items@[best as int], items@[j]),
            forall|j: int| 0 <= j < best ==> #[trigger] lt_in(items@[best as int], items@[j]),
        decreases items@.len() - k,
    {
        let ghost s = items@;
        proof {
            lemma_order_total(s[k as int], s[best as int]);
            lemma_order_total(s[best as int], s[k as int]);
            lemma_order_total(s[k as int], s[k as int]);
        }
        if items[k] < items[best] {
            proof {
                assert forall|j: int| 0 <= j < k implies #[trigger] lt_in(s[k as int], s[j]) by {
                    lemma_order_trans(s[k as int], s[best as int], s[j]);
                }
                assert forall|j: int| 0 <= j < k + 1 implies #[trigger] le_in(s[k as int], s[j]) by {
                    if j < k {
                        lemma_order_trans(s[k as int], s[best as int], s[j]);
                    }
                }
            }
            best = k;
        }
        k = k + 1;
    }
    best
}

/// Position of the first maximum of a slice.
fn first_max_index<T: Ord>(items: &[T]) -> (i: usize)
    requires
        total_order::<T>(),
        items@.len() > 0,
    ensures
        is_first_max_index(items@, i as int),
{
    let mut best: usize = 0;
    let mut k: usize = 1;
    proof {
        lemma_order_total(items@[0], items@[0]);
    }
    while k < items.len()
        invariant
            total_order::<T>(),
            0 <= best < k <= items@.len(),
            forall|j: int| 0 <= j < k ==> #[trigger] le_in(items@[j], items@[best as int]),
            forall|j: int| 0 <= j < best ==> #[trigger] lt_in(items@[j], items@[best as int]),
        decreases items@.len() - k,
    {
        let ghost s = items@;
        proof {
            lemma_order_total(s[k as int], s[best as int]);
            lemma_order_total(s[best as int], s[k as int]);
            lemma_order_total(s[k as int], s[k as int]);
        }
        if items[best] < items[k] {
            proof {
                assert forall|j: int| 0 <= j < k implies #[trigger] lt_in(s[j], s[k as int]) by {
                    lemma_order_trans(s[j], s[best as int], s[k as int]);
                }
                assert forall|j: int| 0 <= j < k + 1 implies #[trigger] le_in(s[j], s[k as int]) by {
                    if j < k {
                        lemma_order_trans(s[j], s[best as int], s[k as int]);
                    }
                }
            }
            best = k;
        } else {
            proof {
                assert(le_in(s[k as int], s[best as int]));
            }
        }
        k = k + 1;
    }
    best
}

/// Position of the last maximum of a slice.
fn last_max_index<T: Ord>(items: &[T]) -> (i: usize)
    requires
        total_order::<T>(),
        items@.len() > 0,
    ensures
        is_last_max_index(items@, i as int),
{
    let mut best: usize = 0;
    let mut k: usize = 1;
    proof {
        lemma_order_total(items@[0], items@[0]);
    }
    while k < items.len()
        invariant
            total_order::<T>(),
            0 <= best < k <= items@.len(),
            forall|j: int| 0 <= j < k ==> #[trigger] le_in(items@[j], items@[best as int]),
            forall|j: int| best < j < k ==> #[trigger] lt_in(items@[j], items@[best as int]),
        decreases items@.len() - k,
    {
        let ghost s = items@;
        proof {
            lemma_order_total(s[k as int], s[best as int]);
            lemma_order_total(s[best as int], s[k as int]);
            lemma_order_total(s[k as int], s[k as int]);
        }
        if items[k] >= items[best] {
            proof {
                assert(le_in(s[best as int], s[k as int]));
                assert forall|j: int| 0 <= j < k + 1 implies #[trigger] le_in(s[j], s[k as int]) by {
                    if j < k {
                        lemma_order_trans(s[j], s[best as int], s[k as int]);
                    }
                }
            }
            best = k;
        } else {
            proof {
                assert(le_in(s[k as int], s[best as int]));
                assert forall|j: int| 0 <= j < k + 1 implies #[trigger] le_in(s[j], s[best as int]) by {}
                assert forall|j: int| best < j < k + 1 implies #[trigger] lt_in(s[j], s[best as int]) by {}
            }
        }
        k = k + 1;
    }
    best
}


/// Minimum of a slice, `None` when it is empty: its first least element.
pub fn slice_min<T: Ord>(items: &[T]) -> (r: Option<&T>)
    requires
        total_order::<T>(),
    ensures
        r is None <==> items@.len() == 0,
        r matches Some(m) ==> is_seq_min(items@, *m),
        r matches Some(m) ==> exists|i: int| is_first_min_index(items@, i) && *m == items@[i],
{
    if items.len() == 0 {
        None
    } else {
        let i = first_min_index(items);
        Some(&items[i])
    }
}

/// Maximum of a slice, `None` when it is empty: its last greatest element.
pub fn slice_max<T: Ord>(items: &[T]) -> (r: Option<&T>)
    requires
        total_order::<T>(),
    ensures
        r is None <==> items@.len() == 0,
        r matches Some(m) ==> is_seq_max(items@, *m),
        r matches Some(m) ==> exists|i: int| is_last_max_index(items@, i) && *m == items@[i],
{
    if items.len() == 0 {
        None
    } else {
        let i = last_max_index(items);
        Some(&items[i])
    }
}

/// Minimum and maximum of a slice, `None` when it is empty: its first
/// least and its first greatest element.
pub fn slice_minmax<T: Ord>(items: &[T]) -> (r: Option<(&T, &T)>)
    requires
        total_order::<T>(),
    ensures
        r is None <==> items@.len() == 0,
        r matches Some(p) ==> is_seq_min(items@, *p.0) && is_seq_max(items@, *p.1),
        r matches Some(p) ==> exists|i: int, j: int|
            is_first_min_index(items@, i) && *p.0 == items@[i] && is_first_max_index(items@, j) && *p.1
                == items@[j],
{
    if items.len() == 0 {
        return None;
    }
    let lo = first_min_index(items);
    let hi = first_max_index(items);
    Some((&items[lo], &items[hi]))
}

/// Index of the first minimum, `None` when the slice is empty.
pub fn argmin<T: Ord>(items: &[T]) -> (r: Option<usize>)
    requires
        total_order::<T>(),
    ensures
        r is None <==> items@.len() == 0,
        r matches Some(i) ==> is_first_min_index(items@, i as int),
{
    if items.len() == 0 {
        None
    } else {
        Some(first_min_index(items))
    }
}

/// Index of the last maximum, `None` when the slice is empty.
pub fn argmax<T: Ord>(items: &[T]) -> (r: Option<usize>)
    requires
        total_order::<T>(),
    ensures
        r is None <==> items@.len() == 0,
        r matches Some(i) ==> is_last_max_index(items@, i as int),
{
    if items.len() == 0 {
        None
    } else {
        Some(last_max_index(items))
    }
}

/// Indices of the first minimum and the first maximum.
pub fn argminmax<T: Ord>(items: &[T]) -> (r: Option<(usize, usize)>)
    requires
        total_order::<T>(),
    ensures
        r is None <==> items@.len() == 0,
        r matches Some(p) ==> is_first_min_index(items@, p.0 as int) && is_first_max_index(
            items@,
            p.1 as int,
        ),
{
    if items.len() == 0 {
        return None;
    }
    Some((first_min_index(items), first_max_index(items)))
}

/// Every index of a minimum gives a least value, and every index of a
/// maximum a greatest one.
pub proof fn lemma_index_gives_extremum<T: Ord>(s: Seq<T>, i: int)
    ensures
        is_min_index(s, i) ==> is_seq_min(s, s[i]),
        is_max_index(s, i) ==> is_seq_max(s, s[i]),
{
}

/// The smaller of two values never comes after the larger; where one comes
/// strictly first they are the two values, and on a tie both are the first.
pub proof fn lemma_min_le_max<T: Ord>(a: T, b: T)
    requires
        total_order::<T>(),
    ensures
        le_in(min_of(a, b), max_of(a, b)),
        lt_in(a, b) ==> min_of(a, b) == a && max_of(a, b) == b,
        lt_in(b, a) ==> min_of(a, b) == b && max_of(a, b) == a,
        le_in(a, b) && le_in(b, a) ==> min_of(a, b) == a && max_of(a, b) == a,
{
    lemma_order_total(a, b);
    lemma_order_total(b, a);
}

/// `T`'s `clone` gives back the value it is called on, as it does for the
/// integers and other plain values.
pub open spec fn clone_is_copy<T: Clone>() -> bool {
    forall|x: T, y: T| #[trigger] vstd::pervasive::strictly_cloned(x, y) ==> x == y
}

/// A running minimum / maximum over the values fed to it.
pub struct MinMaxTracker<T> {
    min: Option<T>,
    max: Option<T>,
    count: usize,
    seen: Ghost<Seq<T>>,
}

impl<T: Ord + Clone> MinMaxTracker<T> {
    /// Every value fed so far, oldest first.
    pub closed spec fn seen(&self) -> Seq<T> {
        self.seen@
    }

    /// The tracker's extrema are those of the values it has seen.
    pub closed spec fn wf(&self) -> bool {
        &&& self.count as int == self.seen@.len()
        &&& (self.seen@.len() == 0 <==> self.min is None)
        &&& (self.seen@.len() == 0 <==> self.max is None)
        &&& (self.min matches Some(m) ==> is_seq_min(self.seen@, m))
        &&& (self.max matches Some(m) ==> is_seq_max(self.seen@, m))
    }

    /// The minimum held.
    pub closed spec fn min_view(&self) -> Option<T> {
        self.min
    }

    /// The maximum held.
    pub closed spec fn max_view(&self) -> Option<T> {
        self.max
    }

    /// Create an empty tracker.
    pub fn new() -> (t: Self)
        ensures
            t.wf(),
            t.seen() == Seq::<T>::empty(),
    {
        MinMaxTracker { min: None, max: None, count: 0, seen: Ghost(Seq::empty()) }
    }

    /// Feed one value: it becomes the minimum where it comes strictly before
    /// the one held, and the maximum where it comes strictly after.
    pub fn update(&mut self, value: T)
        requires
            old(self).wf(),
            old(self).seen().len() < usize::MAX,
            total_order::<T>(),
            clone_is_copy::<T>(),
        ensures
            final(self).wf(),
            final(self).seen() == old(self).seen().push(value),
            final(self).min_view() == Some(
                match old(self).min_view() {
                    Some(m) => if lt_in(value, m) { value } else { m },
                    None => value,
                },
            ),
            final(self).max_view() == Some(
                match old(self).max_view() {
                    Some(m) => if lt_in(m, value) { value } else { m },
                    None => value,
                },
            ),
    {
        let ghost old_seen = self.seen@;
        let ghost old_min = self.min;
        let ghost old_max = self.max;
        self.count = self.count + 1;
        self.seen = Ghost(self.seen@.push(value));
        let new_min = match &self.min {
            Some(m) => value < *m,
            None => true,
        };
        let new_max = match &self.max {
            Some(m) => *m < value,
            None => true,
        };
        proof {
            lemma_order_total(value, value);
            match old_min {
                Some(m) => {
                    lemma_order_total(value, m);
                    lemma_order_total(m, value);
                },
                None => {},
            }
            match old_max {
                Some(m) => {
                    lemma_order_total(value, m);
                    lemma_order_total(m, value);
                },
                None => {},
            }
        }
        if new_min {
            let c = value.clone();
            proof {
                assert(vstd::pervasive::strictly_cloned(value, c));
            }
            self.min = Some(c);
        }
        if new_max {
            self.max = Some(value);
        }
        proof {
            let s = self.seen@;
            assert(s[s.len() - 1] == value);
            assert forall|j: int| 0 <= j < s.len() - 1 implies s[j] == old_seen[j] by {}
            let mn = self.min.unwrap();
            let mx = self.max.unwrap();
            assert forall|j: int| 0 <= j < s.len() implies #[trigger] le_in(mn, s[j]) by {
                if j < s.len() - 1 {
                    if new_min && old_min is Some {
                        lemma_order_trans(value, old_min.unwrap(), s[j]);
                    }
                }
            }
            assert forall|j: int| 0 <= j < s.len() implies #[trigger] le_in(s[j], mx) by {
                if j < s.len() - 1 {
                    if new_max && old_max is Some {
                        lemma_order_trans(s[j], old_max.unwrap(), value);
                    }
                }
            }
            if old_seen.len() > 0 {
                assert(s.contains(mn)) by {
                    if mn != value {
                        let k = choose|k: int| 0 <= k < old_seen.len() && old_seen[k] == mn;
                        assert(s[k] == mn);
                    }
                }
                assert(s.contains(mx)) by {
                    if mx != value {
                        let k = choose|k: int| 0 <= k < old_seen.len() && old_seen[k] == mx;
                        assert(s[k] == mx);
                    }
                }
            } else {
                assert(s[0] == value);
            }
        }
    }

    /// Current minimum.
    pub fn min(&self) -> (r: Option<&T>)
        requires
            self.wf(),
        ensures
            r is None <==> self.seen().len() == 0,
            r matches Some(m) ==> is_seq_min(self.seen(), *m),
            r matches Some(m) ==> self.min_view() == Some(*m),
    {
        match &self.min {
            Some(m) => Some(m),
            None => None,
        }
    }

    /// Current maximum.
    pub fn max(&self) -> (r: Option<&T>)
        requires
            self.wf(),
        ensures
            r is None <==> self.seen().len() == 0,
            r matches Some(m) ==> is_seq_max(self.seen(), *m),
            r matches Some(m) ==> self.max_view() == Some(*m),
    {
        match &self.max {
            Some(m) => Some(m),
            None => None,
        }
    }

    /// Current minimum and maximum.
    pub fn minmax(&self) -> (r: Option<(&T, &T)>)
        requires
            self.wf(),
        ensures
            r is None <==> self.seen().len() == 0,
            r matches Some(p) ==> is_seq_min(self.seen(), *p.0) && is_seq_max(self.seen(), *p.1),
            r matches Some(p) ==> self.min_view() == Some(*p.0) && self.max_view() == Some(*p.1),
    {
        match (&self.min, &self.max) {
            (Some(lo), Some(hi)) => Some((lo, hi)),
            _ => None,
        }
    }

    /// Number of values fed.
    pub fn count(&self) -> (r: usize)
        requires
            self.wf(),
        ensures
            r == self.seen().len(),
    {
        self.count
    }

    /// Whether nothing has been fed.
    pub fn is_empty(&self) -> (r: bool)
        requires
            self.wf(),
        ensures
            r == (self.seen().len() == 0),
    {
        self.count == 0
    }

    /// Forget every value.
    pub fn reset(&mut self)
        ensures
            final(self).wf(),
            final(self).seen() == Seq::<T>::empty(),
    {
        self.min = None;
        self.max = None;
        self.count = 0;
        self.seen = Ghost(Seq::empty());
    }
}

impl<T: Ord + Clone> Default for MinMaxTracker<T> {
    fn default() -> (t: Self)
        ensures
            t.wf(),
            t.seen() == Seq::<T>::empty(),
    {
        Self::new()
    }
}

} // verus!
