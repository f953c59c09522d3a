//! Character-level text operations over `Seq<char>`: whitespace, trimming,
//! searching and splitting, each an exact statement over the characters.

use vstd::prelude::*;
use crate::text::{string_push, string_push_str};

verus! {

/// The Unicode `White_Space` characters, as `char::is_whitespace` reports them.
pub open spec fn is_ws(c: char) -> bool {
    ||| '\u{9}' <= c <= '\u{d}'
    ||| c == ' '
    ||| c == '\u{85}'
    ||| c == '\u{a0}'
    ||| c == '\u{1680}'
    ||| '\u{2000}' <= c <= '\u{200a}'
    ||| c == '\u{2028}'
    ||| c == '\u{2029}'
    ||| c == '\u{202f}'
    ||| c == '\u{205f}'
    ||| c == '\u{3000}'
}

/// Whether `c` is a Unicode whitespace character.
pub fn char_is_whitespace(c: char) -> (r: bool)
    ensures
        r == is_ws(c),
{
    ('\u{9}' <= c && c <= '\u{d}') || c == ' ' || c == '\u{85}' || c == '\u{a0}' || c == '\u{1680}'
        || ('\u{2000}' <= c && c <= '\u{200a}') || c == '\u{2028}' || c == '\u{2029}' || c
        == '\u{202f}' || c == '\u{205f}' || c == '\u{3000}'
}

/// The characters that a trim removes: double quotes, or whitespace.
pub open spec fn strip_pred(quotes: bool, c: char) -> bool {
    if quotes {
        c == '"'
    } else {
        is_ws(c)
    }
}

/// `s` without its leading stripped characters.
pub open spec fn strip_front(s: Seq<char>, quotes: bool) -> Seq<char>
    decreases s.len(),
{
    if s.len() > 0 && strip_pred(quotes, s[0]) {
        strip_front(s.drop_first(), quotes)
    } else {
        s
    }
}

/// `s` without its trailing stripped characters.
pub open spec fn strip_back(s: Seq<char>, quotes: bool) -> Seq<char>
    decreases s.len(),
{
    if s.len() > 0 && strip_pred(quotes, s.last()) {
        strip_back(s.drop_last(), quotes)
    } else {
        s
    }
}

/// `s` without leading and trailing stripped characters.
pub open spec fn strip(s: Seq<char>, quotes: bool) -> Seq<char> {
    strip_back(strip_front(s, quotes), quotes)
}

/// `s` without leading and trailing whitespace, as `str::trim` gives it.
pub open spec fn trim(s: Seq<char>) -> Seq<char> {
    strip(s, false)
}

/// `i` is the first position of `c` in `s`.
pub open spec fn is_first_index(s: Seq<char>, c: char, i: int) -> bool {
    0 <= i < s.len() && s[i] == c && forall|j: int| 0 <= j < i ==> s[j] != c
}

/// `i` is the last position of `c` in `s`.
pub open spec fn is_last_index(s: Seq<char>, c: char, i: int) -> bool {
    0 <= i < s.len() && s[i] == c && forall|j: int| i < j < s.len() ==> s[j] != c
}

/// The first position of `c` in `s`, as `str::find` gives it.
pub open spec fn find_first(s: Seq<char>, c: char) -> Option<int> {
    if s.contains(c) {
        Some(choose|i: int| is_first_index(s, c, i))
    } else {
        None
    }
}

/// The last position of `c` in `s`, as `str::rfind` gives it.
pub open spec fn find_last(s: Seq<char>, c: char) -> Option<int> {
    if s.contains(c) {
        Some(choose|i: int| is_last_index(s, c, i))
    } else {
        None
    }
}

/// The pieces of `s` between occurrences of `c`, as `str::split` gives
/// them (an empty `s` gives one empty piece).
pub open spec fn split_on(s: Seq<char>, c: char) -> Seq<Seq<char>>
    decreases s.len(),
{
    if s.len() == 0 {
        seq![Seq::<char>::empty()]
    } else {
        let init = split_on(s.drop_last(), c);
        if s.last() == c {
            init.push(Seq::<char>::empty())
        } else {
            init.update(init.len() - 1, init.last().push(s.last()))
        }
    }
}

/// A split always yields at least one piece.
pub proof fn lemma_split_nonempty(s: Seq<char>, c: char)
    ensures
        split_on(s, c).len() >= 1,
    decreases s.len(),
{
    if s.len() > 0 {
        lemma_split_nonempty(s.drop_last(), c);
    }
}

/// The first position is the only one of its kind, and exists when `c` occurs.
pub proof fn lemma_find_first(s: Seq<char>, c: char)
    ensures
        match find_first(s, c) {
            Some(i) => is_first_index(s, c, i),
            None => forall|j: int| 0 <= j < s.len() ==> s[j] != c,
        },
        forall|i: int| #[trigger] is_first_index(s, c, i) ==> find_first(s, c) == Some(i),
{
    if s.contains(c) {
        let j = choose|j: int| 0 <= j < s.len() && s[j] == c;
        lemma_first_exists(s, c, j);
        let i = choose|i: int| is_first_index(s, c, i);
        assert forall|k: int| #[trigger] is_first_index(s, c, k) implies k == i by {
            if k < i {
                assert(s[k] == c);
            }
            if i < k {
                assert(s[i] == c);
            }
        }
    } else {
        assert forall|j: int| 0 <= j < s.len() implies s[j] != c by {
            if s[j] == c {
                assert(s.contains(c));
            }
        }
    }
}

proof fn lemma_first_exists(s: Seq<char>, c: char, j: int)
    requires
        0 <= j < s.len(),
        s[j] == c,
    ensures
        exists|i: int| is_first_index(s, c, i),
    decreases j,
{
    if exists|l: int| 0 <= l < j && s[l] == c {
        let l = choose|l: int| 0 <= l < j && s[l] == c;
        lemma_first_exists(s, c, l);
    } else {
        assert(is_first_index(s, c, j));
    }
}

proof fn lemma_last_exists(s: Seq<char>, c: char, j: int)
    requires
        0 <= j < s.len(),
        s[j] == c,
    ensures
        exists|i: int| is_last_index(s, c, i),
    decreases s.len() - j,
{
    if exists|l: int| j < l < s.len() && s[l] == c {
        let l = choose|l: int| j < l < s.len() && s[l] == c;
        lemma_last_exists(s, c, l);
    } else {
        assert(is_last_index(s, c, j));
    }
}

/// The last position is the only one of its kind, and exists when `c` occurs.
pub proof fn lemma_find_last(s: Seq<char>, c: char)
    ensures
        match find_last(s, c) {
            Some(i) => is_last_index(s, c, i),
            None => forall|j: int| 0 <= j < s.len() ==> s[j] != c,
        },
        forall|i: int| #[trigger] is_last_index(s, c, i) ==> find_last(s, c) == Some(i),
{
    if s.contains(c) {
        let j = choose|j: int| 0 <= j < s.len() && s[j] == c;
        lemma_last_exists(s, c, j);
        let i = choose|i: int| is_last_index(s, c, i);
        assert forall|k: int| #[trigger] is_last_index(s, c, k) implies k == i by {
            if k < i {
                assert(s[i] == c);
            }
            if i < k {
                assert(s[k] == c);
            }
        }
    } else {
        assert forall|j: int| 0 <= j < s.len() implies s[j] != c by {
            if s[j] == c {
                assert(s.contains(c));
            }
        }
    }
}

/// Whether a trim removes `c`.
fn stripped(c: char, quotes: bool) -> (r: bool)
    ensures
        r == strip_pred(quotes, c),
{
    if quotes {
        c == '"'
    } else {
        char_is_whitespace(c)
    }
}

/// The bounds of `strip(chars[lo..hi])` inside `chars`.
pub fn strip_range(chars: &Vec<char>, lo: usize, hi: usize, quotes: bool) -> (r: (usize, usize))
    requires
        lo <= hi <= chars@.len(),
    ensures
        lo <= r.0 <= r.1 <= hi,
        chars@.subrange(r.0 as int, r.1 as int) == strip(chars@.subrange(lo as int, hi as int), quotes),
{
    let ghost s = chars@;
    let mut a = lo;
    while a < hi && stripped(chars[a], quotes)
        invariant
            s == chars@,
            lo <= a <= hi <= s.len(),
            strip_front(s.subrange(lo as int, hi as int), quotes) == strip_front(
                s.subrange(a as int, hi as int),
                quotes,
            ),
        decreases hi - a,
    {
        assert(s.subrange(a as int, hi as int).drop_first() =~= s.subrange(a + 1, hi as int));
        a = a + 1;
    }
    let ghost front = s.subrange(a as int, hi as int);
    assert(strip_front(front, quotes) == front);
    let mut b = hi;
    while b > a && stripped(chars[b - 1], quotes)
        invariant
            s == chars@,
            lo <= a <= b <= hi <= s.len(),
            front == s.subrange(a as int, hi as int),
            strip_back(front, quotes) == strip_back(s.subrange(a as int, b as int), quotes),
        decreases b - a,
    {
        assert(s.subrange(a as int, b as int).drop_last() =~= s.subrange(a as int, b - 1));
        b = b - 1;
    }
    assert(strip_back(s.subrange(a as int, b as int), quotes) == s.subrange(a as int, b as int));
    (a, b)
}

/// The first position of `c` within `chars[lo..hi]`, counted from `lo`.
pub fn find_in_range(chars: &Vec<char>, lo: usize, hi: usize, c: char) -> (r: Option<usize>)
    requires
        lo <= hi <= chars@.len(),
    ensures
        match r {
            Some(p) => lo <= p < hi && find_first(chars@.subrange(lo as int, hi as int), c) == Some(
                p - lo,
            ),
            None => find_first(chars@.subrange(lo as int, hi as int), c) is None,
        },
{
    let ghost t = chars@.subrange(lo as int, hi as int);
    proof {
        lemma_find_first(t, c);
    }
    let mut i = lo;
    while i < hi
        invariant
            t == chars@.subrange(lo as int, hi as int),
            lo <= i <= hi <= chars@.len(),
            forall|j: int| lo <= j < i ==> chars@[j] != c,
        decreases hi - i,
    {
        if chars[i] == c {
            assert(is_first_index(t, c, i - lo));
            return Some(i);
        }
        i = i + 1;
    }
    assert(!t.contains(c));
    None
}

/// The last position of `c` within `chars[lo..hi]`, counted from `lo`.
pub fn rfind_in_range(chars: &Vec<char>, lo: usize, hi: usize, c: char) -> (r: Option<usize>)
    requires
        lo <= hi <= chars@.len(),
    ensures
        match r {
            Some(p) => lo <= p < hi && find_last(chars@.subrange(lo as int, hi as int), c) == Some(
                p - lo,
            ),
            None => find_last(chars@.subrange(lo as int, hi as int), c) is None,
        },
{
    let ghost t = chars@.subrange(lo as int, hi as int);
    proof {
        lemma_find_last(t, c);
    }
    let mut i = hi;
    while i > lo
        invariant
            t == chars@.subrange(lo as int, hi as int),
            lo <= i <= hi <= chars@.len(),
            forall|j: int| i <= j < hi ==> chars@[j] != c,
        decreases i - lo,
    {
        if chars[i - 1] == c {
            assert(is_last_index(t, c, i - 1 - lo));
            return Some(i - 1);
        }
        i = i - 1;
    }
    assert(!t.contains(c));
    None
}

/// The bounds of the pieces of `chars[lo..hi]` between occurrences of `c`.
pub fn split_ranges(chars: &Vec<char>, lo: usize, hi: usize, c: char) -> (r: Vec<(usize, usize)>)
    requires
        lo <= hi <= chars@.len(),
    ensures
        r@.len() == split_on(chars@.subrange(lo as int, hi as int), c).len(),
        forall|k: int|
            0 <= k < r@.len() ==> lo <= (#[trigger] r@[k]).0 <= r@[k].1 <= hi && chars@.subrange(
                r@[k].0 as int,
                r@[k].1 as int,
            ) == split_on(chars@.subrange(lo as int, hi as int), c)[k],
{
    let ghost s = chars@;
    let mut out: Vec<(usize, usize)> = Vec::new();
    let mut start = lo;
    let mut i = lo;
    assert(s.subrange(lo as int, lo as int) =~= Seq::<char>::empty());
    while i < hi
        invariant
            s == chars@,
            lo <= start <= i <= hi <= s.len(),
            out@.len() + 1 == split_on(s.subrange(lo as int, i as int), c).len(),
            forall|k: int|
                0 <= k < out@.len() ==> lo <= (#[trigger] out@[k]).0 <= out@[k].1 <= i
                    && s.subrange(out@[k].0 as int, out@[k].1 as int) == split_on(
                    s.subrange(lo as int, i as int),
                    c,
                )[k],
            s.subrange(start as int, i as int) == split_on(s.subrange(lo as int, i as int), c).last(),
        decreases hi - i,
    {
        let ghost prev = split_on(s.subrange(lo as int, i as int), c);
        assert(s.subrange(lo as int, i + 1).drop_last() =~= s.subrange(lo as int, i as int));
        if chars[i] == c {
            out.push((start, i));
            start = i + 1;
            i = i + 1;
            assert(s.subrange(start as int, i as int) =~= Seq::<char>::empty());
        } else {
            i = i + 1;
            assert(s.subrange(start as int, i as int) =~= s.subrange(start as int, i - 1).push(s[i - 1]));
        }
    }
    proof {
        lemma_split_nonempty(s.subrange(lo as int, hi as int), c);
    }
    out.push((start, hi));
    out
}

/// A `String` holding `chars[lo..hi]`.
pub fn string_of_range(chars: &Vec<char>, lo: usize, hi: usize) -> (r: String)
    requires
        lo <= hi <= chars@.len(),
    ensures
        r@ == chars@.subrange(lo as int, hi as int),
{
    let mut out = String::new();
    let mut i = lo;
    while i < hi
        invariant
            lo <= i <= hi <= chars@.len(),
            out@ == chars@.subrange(lo as int, i as int),
        decreases hi - i,
    {
        string_push(&mut out, chars[i]);
        i = i + 1;
        assert(out@ =~= chars@.subrange(lo as int, i as int));
    }
    out
}

/// A range of a range is a range of the whole.
pub proof fn lemma_subrange_of_subrange(s: Seq<char>, a: int, b: int, i: int, j: int)
    requires
        0 <= a <= b <= s.len(),
        0 <= i <= j <= b - a,
    ensures
        s.subrange(a, b).subrange(i, j) == s.subrange(a + i, a + j),
{
    assert(s.subrange(a, b).subrange(i, j) =~= s.subrange(a + i, a + j));
}

/// `pat` occurs in `s` at position `i`.
pub open spec fn occurs_at(s: Seq<char>, pat: Seq<char>, i: int) -> bool {
    0 <= i && i + pat.len() <= s.len() && s.subrange(i, i + pat.len()) == pat
}

/// `i` is the first position where `pat` occurs in `s`.
pub open spec fn is_first_occurrence(s: Seq<char>, pat: Seq<char>, i: int) -> bool {
    occurs_at(s, pat, i) && forall|j: int| 0 <= j < i ==> !occurs_at(s, pat, j)
}

/// The first position of `pat` in `s`, as `str::find` gives it for a
/// string pattern.
pub open spec fn find_seq(s: Seq<char>, pat: Seq<char>) -> Option<int> {
    if exists|i: int| occurs_at(s, pat, i) {
        Some(choose|i: int| is_first_occurrence(s, pat, i))
    } else {
        None
    }
}

/// `s` ends with `pat`.
pub open spec fn ends_with(s: Seq<char>, pat: Seq<char>) -> bool {
    pat.len() <= s.len() && s.subrange(s.len() - pat.len(), s.len() as int) == pat
}

/// `s` with every occurrence of `pat`, from the left and without overlap,
/// replaced by `rep`, as `str::replace` gives it.
pub open spec fn replace_all(s: Seq<char>, pat: Seq<char>, rep: Seq<char>) -> Seq<char>
    decreases s.len(),
{
    if s.len() == 0 {
        Seq::empty()
    } else if pat.len() > 0 && occurs_at(s, pat, 0) {
        rep + replace_all(s.subrange(pat.len() as int, s.len() as int), pat, rep)
    } else {
        seq![s[0]] + replace_all(s.drop_first(), pat, rep)
    }
}

proof fn lemma_first_occurrence_exists(s: Seq<char>, pat: Seq<char>, j: int)
    requires
        occurs_at(s, pat, j),
    ensures
        exists|i: int| is_first_occurrence(s, pat, i),
    decreases j,
{
    if exists|l: int| 0 <= l < j && occurs_at(s, pat, l) {
        let l = choose|l: int| 0 <= l < j && occurs_at(s, pat, l);
        lemma_first_occurrence_exists(s, pat, l);
    } else {
        assert(is_first_occurrence(s, pat, j));
    }
}

/// The first occurrence is unique, and exists when `pat` occurs.
pub proof fn lemma_find_seq(s: Seq<char>, pat: Seq<char>)
    ensures
        match find_seq(s, pat) {
            Some(i) => is_first_occurrence(s, pat, i),
            None => forall|j: int| !occurs_at(s, pat, j),
        },
        forall|i: int| #[trigger] is_first_occurrence(s, pat, i) ==> find_seq(s, pat) == Some(i),
{
    if exists|i: int| occurs_at(s, pat, i) {
        let j = choose|i: int| occurs_at(s, pat, i);
        lemma_first_occurrence_exists(s, pat, j);
        let i = choose|i: int| is_first_occurrence(s, pat, i);
        assert forall|k: int| #[trigger] is_first_occurrence(s, pat, k) implies k == i by {
            if k < i {
                assert(occurs_at(s, pat, k));
            }
            if i < k {
                assert(occurs_at(s, pat, i));
            }
        }
    }
}

/// Whether `pat` occurs in `chars` at `i`.
pub fn occurs_at_exec(chars: &Vec<char>, pat: &Vec<char>, i: usize) -> (r: bool)
    ensures
        r == occurs_at(chars@, pat@, i as int),
{
    if pat.len() > chars.len() || i > chars.len() - pat.len() {
        return false;
    }
    let n = chars.len();
    let mut k: usize = 0;
    while k < pat.len()
        invariant
            n == chars@.len(),
            i + pat@.len() <= chars@.len(),
            k <= pat@.len(),
            forall|m: int| 0 <= m < k ==> chars@[i + m] == pat@[m],
        decreases pat@.len() - k,
    {
        if chars[i + k] != pat[k] {
            assert(chars@.subrange(i as int, i + pat@.len())[k as int] != pat@[k as int]);
            return false;
        }
        k = k + 1;
    }
    assert(chars@.subrange(i as int, i + pat@.len()) =~= pat@);
    true
}

/// The first position of `pat` in `chars`.
pub fn find_seq_exec(chars: &Vec<char>, pat: &Vec<char>) -> (r: Option<usize>)
    ensures
        match r {
            Some(i) => find_seq(chars@, pat@) == Some(i as int),
            None => find_seq(chars@, pat@) is None,
        },
{
    proof {
        lemma_find_seq(chars@, pat@);
    }
    let n = chars.len();
    let mut i: usize = 0;
    while i < n
        invariant
            n == chars@.len(),
            i <= n,
            forall|j: int| 0 <= j < i ==> !occurs_at(chars@, pat@, j),
        decreases n - i,
    {
        if occurs_at_exec(chars, pat, i) {
            assert(is_first_occurrence(chars@, pat@, i as int));
            return Some(i);
        }
        i = i + 1;
    }
    if occurs_at_exec(chars, pat, n) {
        assert(is_first_occurrence(chars@, pat@, n as int));
        return Some(n);
    }
    assert forall|j: int| !occurs_at(chars@, pat@, j) by {
        if 0 <= j && j > n {
            assert(j + pat@.len() > chars@.len());
        }
    }
    None
}

/// Whether `chars` ends with `pat`.
pub fn ends_with_exec(chars: &Vec<char>, pat: &Vec<char>) -> (r: bool)
    ensures
        r == ends_with(chars@, pat@),
{
    if pat.len() > chars.len() {
        return false;
    }
    let r = occurs_at_exec(chars, pat, chars.len() - pat.len());
    r
}

/// `chars` with every occurrence of `pat` replaced by `rep`.
pub fn replace_all_exec(chars: &Vec<char>, pat: &Vec<char>, rep: &str) -> (r: String)
    ensures
        r@ == replace_all(chars@, pat@, rep@),
{
    let n = chars.len();
    let mut out = String::new();
    let mut i: usize = 0;
    assert(chars@.subrange(0, n as int) =~= chars@);
    while i < n
        invariant
            n == chars@.len(),
            i <= n,
            out@ + replace_all(chars@.subrange(i as int, n as int), pat@, rep@) == replace_all(chars@, pat@, rep@),
        decreases n - i,
    {
        let ghost rest = chars@.subrange(i as int, n as int);
        let hit = pat.len() > 0 && occurs_at_exec(chars, pat, i);
        proof {
            if pat@.len() > 0 {
                if occurs_at(chars@, pat@, i as int) {
                    assert(rest.subrange(0, pat@.len() as int) =~= chars@.subrange(i as int, i + pat@.len()));
                } else if pat@.len() <= rest.len() {
                    assert(rest.subrange(0, pat@.len() as int) =~= chars@.subrange(i as int, i + pat@.len()));
                }
            }
        }
        let ghost old_out = out@;
        if hit {
            string_push_str(&mut out, rep);
            proof {
                assert(rest.subrange(pat@.len() as int, rest.len() as int) =~= chars@.subrange(i + pat@.len(), n as int));
                assert(out@ + replace_all(chars@.subrange(i + pat@.len(), n as int), pat@, rep@) =~= old_out
                    + replace_all(rest, pat@, rep@));
            }
            i = i + pat.len();
        } else {
            string_push(&mut out, chars[i]);
            proof {
                assert(rest.drop_first() =~= chars@.subrange(i + 1, n as int));
                assert(out@ + replace_all(chars@.subrange(i + 1, n as int), pat@, rep@) =~= old_out
                    + replace_all(rest, pat@, rep@));
            }
            i = i + 1;
        }
    }
    assert(chars@.subrange(n as int, n as int) =~= Seq::<char>::empty());
    out
}

} // verus!
