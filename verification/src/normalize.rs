//! Text normalizers: letter case and word-joining styles, whitespace,
//! phone numbers, e-mail addresses and URLs, digit grouping, and chains of
//! normalizers applied in turn.

use vstd::prelude::*;
use crate::chars::{
    char_is_whitespace, ends_with, ends_with_exec, find_first, find_in_range, find_seq, find_seq_exec, is_ws,
    lemma_subrange_of_subrange, replace_all, replace_all_exec, string_of_range, strip_range, trim,
};
use crate::text::{
    char_is_alphanumeric, char_is_lowercase, char_is_uppercase, char_to_uppercase, chars_of,
    str_to_lowercase, str_to_uppercase, string_push, string_push_str, to_owned_string,
    unicode_alphanumeric, unicode_is_lower, unicode_is_upper, unicode_lowercase, unicode_upper_char,
    unicode_uppercase,
};

verus! {

/// Errors of normalization.
#[derive(Debug, Clone, PartialEq, Eq)]
pub enum NormalizeError {
    /// The input cannot be normalized; the text says why.
    InvalidInput(String),
    /// Normalization failed; the text says why.
    Failed(String),
}

impl NormalizeError {
    /// The error's description.
    pub fn message(&self) -> (r: String)
        ensures
            r@ == match self {
                NormalizeError::InvalidInput(s) => "Invalid input: "@ + s@,
                NormalizeError::Failed(s) => "Normalization failed: "@ + s@,
            },
    {
        let mut out = String::new();
        match self {
            NormalizeError::InvalidInput(s) => {
                string_push_str(&mut out, "Invalid input: ");
                string_push_str(&mut out, s.as_str());
            },
            NormalizeError::Failed(s) => {
                string_push_str(&mut out, "Normalization failed: ");
                string_push_str(&mut out, s.as_str());
            },
        }
        out
    }
}

/// Something that brings values of type `T` into a canonical form.
pub trait Normalizer<T> {
    /// `output` is what normalizing `input` gives.
    spec fn normalizes(&self, input: T, output: Result<T, NormalizeError>) -> bool;

    /// The normal form of `input`, or why there is none.
    fn normalize(&self, input: T) -> (r: Result<T, NormalizeError>)
        ensures
            self.normalizes(input, r);
}

/// Letter-case styles.
#[derive(Debug, Clone, Copy, PartialEq, Eq, Structural)]
pub enum Case {
    Lower,
    Upper,
    Title,
    Sentence,
    Camel,
    Snake,
    Kebab,
    Pascal,
}

/// The state of splitting text into words: the finished words (lowercased)
/// and the word being read.
pub open spec fn words_state(s: Seq<char>) -> (Seq<Seq<char>>, Seq<char>)
    decreases s.len(),
{
    if s.len() == 0 {
        (Seq::empty(), Seq::empty())
    } else {
        let (words, cur) = words_state(s.drop_last());
        let c = s.last();
        if unicode_alphanumeric(c) {
            if unicode_is_upper(c) && cur.len() > 0 && unicode_is_lower(cur.last()) {
                (words.push(unicode_lowercase(cur)), seq![c])
            } else {
                (words, cur.push(c))
            }
        } else if cur.len() > 0 {
            (words.push(unicode_lowercase(cur)), Seq::empty())
        } else {
            (words, cur)
        }
    }
}

/// The words of a text, lowercased: runs of alphanumeric characters, a new
/// word also starting at an uppercase letter after a lowercase one.
pub open spec fn words_of(s: Seq<char>) -> Seq<Seq<char>> {
    let (words, cur) = words_state(s);
    if cur.len() > 0 {
        words.push(unicode_lowercase(cur))
    } else {
        words
    }
}

/// The state of splitting text at whitespace: the finished pieces and the
/// piece being read.
pub open spec fn ws_state(s: Seq<char>) -> (Seq<Seq<char>>, Seq<char>)
    decreases s.len(),
{
    if s.len() == 0 {
        (Seq::empty(), Seq::empty())
    } else {
        let (done, cur) = ws_state(s.drop_last());
        let c = s.last();
        if is_ws(c) {
            if cur.len() > 0 {
                (done.push(cur), Seq::empty())
            } else {
                (done, cur)
            }
        } else {
            (done, cur.push(c))
        }
    }
}

/// The non-empty pieces of a text between whitespace, as
/// `str::split_whitespace` gives them.
pub open spec fn ws_words(s: Seq<char>) -> Seq<Seq<char>> {
    let (done, cur) = ws_state(s);
    if cur.len() > 0 {
        done.push(cur)
    } else {
        done
    }
}

/// A word with its first character uppercased.
pub open spec fn capitalize(w: Seq<char>) -> Seq<char> {
    if w.len() == 0 {
        Seq::empty()
    } else {
        unicode_upper_char(w[0]) + w.drop_first()
    }
}

/// The words joined with `sep` between them.
pub open spec fn join(ws: Seq<Seq<char>>, sep: Seq<char>) -> Seq<char>
    decreases ws.len(),
{
    if ws.len() == 0 {
        Seq::empty()
    } else if ws.len() == 1 {
        ws[0]
    } else {
        join(ws.drop_last(), sep) + sep + ws.last()
    }
}

/// The words capitalized and joined without separator.
pub open spec fn pascal_join(ws: Seq<Seq<char>>) -> Seq<char>
    decreases ws.len(),
{
    if ws.len() == 0 {
        Seq::empty()
    } else {
        pascal_join(ws.drop_last()) + capitalize(ws.last())
    }
}

/// The first word as it is, the others capitalized, joined without
/// separator.
pub open spec fn camel_join(ws: Seq<Seq<char>>) -> Seq<char>
    decreases ws.len(),
{
    if ws.len() == 0 {
        Seq::empty()
    } else if ws.len() == 1 {
        ws[0]
    } else {
        camel_join(ws.drop_last()) + capitalize(ws.last())
    }
}

/// A text in a letter-case style.
pub open spec fn in_case(case: Case, s: Seq<char>) -> Seq<char> {
    match case {
        Case::Lower => unicode_lowercase(s),
        Case::Upper => unicode_uppercase(s),
        Case::Title => join(ws_words(s).map_values(|w: Seq<char>| capitalize(w)), " "@),
        Case::Sentence => capitalize(unicode_lowercase(s)),
        Case::Snake => join(words_of(s), "_"@),
        Case::Kebab => join(words_of(s), "-"@),
        Case::Camel => camel_join(words_of(s)),
        Case::Pascal => pascal_join(words_of(s)),
    }
}

/// The views of a list of strings.
pub open spec fn string_views(v: Seq<String>) -> Seq<Seq<char>> {
    v.map_values(|s: String| s@)
}

/// The lowercased words of `s`.
fn to_words(s: &str) -> (r: Vec<String>)
    ensures
        string_views(r@) == words_of(s@),
{
    let chars = chars_of(s);
    let n = chars.len();
    let mut words: Vec<String> = Vec::new();
    let mut current = String::new();
    let mut i: usize = 0;
    assert(chars@.subrange(0, 0) =~= Seq::<char>::empty());
    assert(string_views(words@) =~= Seq::<Seq<char>>::empty());
    while i < n
        invariant
            n == chars@.len(),
            chars@ == s@,
            i <= n,
            (string_views(words@), current@) == words_state(chars@.subrange(0, i as int)),
        decreases n - i,
    {
        let c = chars[i];
        let ghost before = chars@.subrange(0, i as int);
        assert(chars@.subrange(0, i + 1).drop_last() =~= before);
        assert(chars@.subrange(0, i + 1).last() == c);
        if char_is_alphanumeric(c) {
            let split = if char_is_uppercase(c) && current.unicode_len() > 0 {
                let last = current.get_char(current.unicode_len() - 1);
                char_is_lowercase(last)
            } else {
                false
            };
            if split {
                let lower = str_to_lowercase(current.as_str());
                words.push(lower);
                current = String::new();
                string_push(&mut current, c);
                assert(current@ =~= seq![c]);
            } else {
                string_push(&mut current, c);
            }
        } else if current.unicode_len() > 0 {
            let lower = str_to_lowercase(current.as_str());
            words.push(lower);
            current = String::new();
            assert(current@ =~= Seq::<char>::empty());
        }
        assert(string_views(words@) =~= words_state(chars@.subrange(0, i + 1)).0);
        i = i + 1;
    }
    assert(chars@.subrange(0, n as int) =~= s@);
    if current.unicode_len() > 0 {
        let lower = str_to_lowercase(current.as_str());
        words.push(lower);
    }
    assert(string_views(words@) =~= words_of(s@));
    words
}

/// The non-empty pieces of `s` between whitespace.
pub(crate) fn split_ws(s: &str) -> (r: Vec<String>)
    ensures
        string_views(r@) == ws_words(s@),
{
    let chars = chars_of(s);
    let n = chars.len();
    let mut done: Vec<String> = Vec::new();
    let mut current = String::new();
    let mut i: usize = 0;
    assert(chars@.subrange(0, 0) =~= Seq::<char>::empty());
    assert(string_views(done@) =~= Seq::<Seq<char>>::empty());
    while i < n
        invariant
            n == chars@.len(),
            chars@ == s@,
            i <= n,
            (string_views(done@), current@) == ws_state(chars@.subrange(0, i as int)),
        decreases n - i,
    {
        let c = chars[i];
        assert(chars@.subrange(0, i + 1).drop_last() =~= chars@.subrange(0, i as int));
        assert(chars@.subrange(0, i + 1).last() == c);
        if char_is_whitespace(c) {
            if current.unicode_len() > 0 {
                done.push(current);
                current = String::new();
                assert(current@ =~= Seq::<char>::empty());
            }
        } else {
            string_push(&mut current, c);
        }
        assert(string_views(done@) =~= ws_state(chars@.subrange(0, i + 1)).0);
        i = i + 1;
    }
    assert(chars@.subrange(0, n as int) =~= s@);
    if current.unicode_len() > 0 {
        done.push(current);
    }
    assert(string_views(done@) =~= ws_words(s@));
    done
}

/// `w` with its first character uppercased.
fn capitalize_str(w: &str) -> (r: String)
    ensures
        r@ == capitalize(w@),
{
    let n = w.unicode_len();
    if n == 0 {
        return String::new();
    }
    let mut out = char_to_uppercase(w.get_char(0));
    let chars = chars_of(w);
    let rest = string_of_range(&chars, 1, n);
    string_push_str(&mut out, rest.as_str());
    assert(chars@.subrange(1, n as int) =~= w@.drop_first());
    out
}

/// The words joined with `sep` between them.
pub(crate) fn join_words(ws: &Vec<String>, sep: &str) -> (r: String)
    ensures
        r@ == join(string_views(ws@), sep@),
{
    let ghost v = string_views(ws@);
    let mut out = String::new();
    let mut i: usize = 0;
    assert(v.subrange(0, 0) =~= Seq::<Seq<char>>::empty());
    while i < ws.len()
        invariant
            v == string_views(ws@),
            i <= ws@.len(),
            out@ == join(v.subrange(0, i as int), sep@),
        decreases ws@.len() - i,
    {
        if i > 0 {
            string_push_str(&mut out, sep);
        }
        string_push_str(&mut out, ws[i].as_str());
        assert(v.subrange(0, i + 1).drop_last() =~= v.subrange(0, i as int));
        assert(v[i as int] == ws@[i as int]@);
        i = i + 1;
        assert(out@ =~= join(v.subrange(0, i as int), sep@));
    }
    assert(v.subrange(0, i as int) =~= v);
    out
}

/// The words, the first as it is and the others capitalized, or all
/// capitalized, joined without separator.
fn join_capitalized(ws: &Vec<String>, keep_first: bool) -> (r: String)
    ensures
        r@ == if keep_first { camel_join(string_views(ws@)) } else { pascal_join(string_views(ws@)) },
{
    let ghost v = string_views(ws@);
    let mut out = String::new();
    let mut i: usize = 0;
    assert(v.subrange(0, 0) =~= Seq::<Seq<char>>::empty());
    while i < ws.len()
        invariant
            v == string_views(ws@),
            i <= ws@.len(),
            out@ == if keep_first { camel_join(v.subrange(0, i as int)) } else { pascal_join(v.subrange(0, i as int)) },
        decreases ws@.len() - i,
    {
        assert(v.subrange(0, i + 1).drop_last() =~= v.subrange(0, i as int));
        assert(v[i as int] == ws@[i as int]@);
        if keep_first && i == 0 {
            string_push_str(&mut out, ws[i].as_str());
        } else {
            let cap = capitalize_str(ws[i].as_str());
            string_push_str(&mut out, cap.as_str());
        }
        i = i + 1;
        assert(out@ =~= if keep_first { camel_join(v.subrange(0, i as int)) } else { pascal_join(v.subrange(0, i as int)) });
    }
    assert(v.subrange(0, i as int) =~= v);
    out
}

/// Brings text into one letter-case style.
#[derive(Debug, Clone, Copy, PartialEq, Eq, Structural)]
pub struct CaseNormalizer(pub Case);

impl CaseNormalizer {
    pub fn lower() -> (r: Self)
        ensures
            r.0 == Case::Lower,
    {
        CaseNormalizer(Case::Lower)
    }

    pub fn upper() -> (r: Self)
        ensures
            r.0 == Case::Upper,
    {
        CaseNormalizer(Case::Upper)
    }

    pub fn title() -> (r: Self)
        ensures
            r.0 == Case::Title,
    {
        CaseNormalizer(Case::Title)
    }

    pub fn snake() -> (r: Self)
        ensures
            r.0 == Case::Snake,
    {
        CaseNormalizer(Case::Snake)
    }

    pub fn kebab() -> (r: Self)
        ensures
            r.0 == Case::Kebab,
    {
        CaseNormalizer(Case::Kebab)
    }

    pub fn camel() -> (r: Self)
        ensures
            r.0 == Case::Camel,
    {
        CaseNormalizer(Case::Camel)
    }

    pub fn pascal() -> (r: Self)
        ensures
            r.0 == Case::Pascal,
    {
        CaseNormalizer(Case::Pascal)
    }

    /// `input` in this normalizer's style.
    pub fn apply(&self, input: &str) -> (r: String)
        ensures
            r@ == in_case(self.0, input@),
    {
        match self.0 {
            Case::Lower => str_to_lowercase(input),
            Case::Upper => str_to_uppercase(input),
            Case::Title => {
                let pieces = split_ws(input);
                let mut caps: Vec<String> = Vec::new();
                let mut i: usize = 0;
                while i < pieces.len()
                    invariant
                        i <= pieces@.len(),
                        caps@.len() == i,
                        forall|j: int| 0 <= j < i ==> (#[trigger] caps@[j])@ == capitalize(pieces@[j]@),
                    decreases pieces@.len() - i,
                {
                    caps.push(capitalize_str(pieces[i].as_str()));
                    i = i + 1;
                }
                assert(string_views(caps@) =~= string_views(pieces@).map_values(|w: Seq<char>| capitalize(w)));
                join_words(&caps, " ")
            },
            Case::Sentence => {
                let lower = str_to_lowercase(input);
                capitalize_str(lower.as_str())
            },
            Case::Snake => join_words(&to_words(input), "_"),
            Case::Kebab => join_words(&to_words(input), "-"),
            Case::Camel => join_capitalized(&to_words(input), true),
            Case::Pascal => join_capitalized(&to_words(input), false),
        }
    }
}

impl Normalizer<String> for CaseNormalizer {
    open spec fn normalizes(&self, input: String, output: Result<String, NormalizeError>) -> bool {
        output matches Ok(s) && s@ == in_case(self.0, input@)
    }

    fn normalize(&self, input: String) -> (r: Result<String, NormalizeError>)
        ensures
            r matches Ok(s) && s@ == in_case(self.0, input@),
    {
        Ok(self.apply(input.as_str()))
    }
}

/// The state of collapsing whitespace: the text so far, and whether it
/// ends in a collapsed run.
pub open spec fn collapse_state(s: Seq<char>) -> (Seq<char>, bool)
    decreases s.len(),
{
    if s.len() == 0 {
        (Seq::empty(), false)
    } else {
        let (out, prev) = collapse_state(s.drop_last());
        if is_ws(s.last()) {
            if prev {
                (out, true)
            } else {
                (out.push(' '), true)
            }
        } else {
            (out.push(s.last()), false)
        }
    }
}

/// A text with every run of whitespace replaced by one space.
pub open spec fn collapse_ws(s: Seq<char>) -> Seq<char> {
    collapse_state(s).0
}

/// What a whitespace normalizer makes of a text.
pub open spec fn ws_normal(s: Seq<char>, collapse: bool, trim_ends: bool) -> Seq<char> {
    let t = if trim_ends { trim(s) } else { s };
    if collapse { collapse_ws(t) } else { t }
}

/// Trims and/or collapses whitespace.
#[derive(Debug, Clone, Copy, PartialEq, Eq, Structural)]
pub struct WhitespaceNormalizer {
    collapse: bool,
    trim: bool,
}

impl WhitespaceNormalizer {
    /// Whether runs are collapsed.
    pub closed spec fn collapses(&self) -> bool {
        self.collapse
    }

    /// Whether the ends are trimmed.
    pub closed spec fn trims(&self) -> bool {
        self.trim
    }

    /// Trim and collapse.
    pub fn new() -> (r: Self)
        ensures
            r.collapses() && r.trims(),
    {
        WhitespaceNormalizer { collapse: true, trim: true }
    }

    /// Collapse only.
    pub fn collapse_only() -> (r: Self)
        ensures
            r.collapses() && !r.trims(),
    {
        WhitespaceNormalizer { collapse: true, trim: false }
    }

    /// Trim only.
    pub fn trim_only() -> (r: Self)
        ensures
            !r.collapses() && r.trims(),
    {
        WhitespaceNormalizer { collapse: false, trim: true }
    }

    /// `input` trimmed and/or collapsed.
    pub fn apply(&self, input: &str) -> (r: String)
        ensures
            r@ == ws_normal(input@, self.collapses(), self.trims()),
    {
        let chars = chars_of(input);
        let n = chars.len();
        assert(chars@.subrange(0, n as int) =~= input@);
        let (a, b) = if self.trim {
            strip_range(&chars, 0, n, false)
        } else {
            (0, n)
        };
        let ghost t = chars@.subrange(a as int, b as int);
        assert(t == if self.trim { trim(input@) } else { input@ });
        if !self.collapse {
            return string_of_range(&chars, a, b);
        }
        let mut out = String::new();
        let mut prev = false;
        let mut i = a;
        assert(t.subrange(0, 0) =~= Seq::<char>::empty());
        while i < b
            invariant
                a <= i <= b <= chars@.len(),
                t == chars@.subrange(a as int, b as int),
                (out@, prev) == collapse_state(t.subrange(0, i - a)),
            decreases b - i,
        {
            let c = chars[i];
            assert(t.subrange(0, i - a + 1).drop_last() =~= t.subrange(0, i - a));
            assert(t.subrange(0, i - a + 1).last() == c);
            if char_is_whitespace(c) {
                if !prev {
                    string_push(&mut out, ' ');
                    prev = true;
                }
            } else {
                string_push(&mut out, c);
                prev = false;
            }
            i = i + 1;
        }
        assert(t.subrange(0, b - a) =~= t);
        out
    }
}

impl Default for WhitespaceNormalizer {
    fn default() -> (r: Self)
        ensures
            r.collapses() && r.trims(),
    {
        WhitespaceNormalizer::new()
    }
}

impl Normalizer<String> for WhitespaceNormalizer {
    open spec fn normalizes(&self, input: String, output: Result<String, NormalizeError>) -> bool {
        output matches Ok(s) && s@ == ws_normal(input@, self.collapses(), self.trims())
    }

    fn normalize(&self, input: String) -> (r: Result<String, NormalizeError>)
        ensures
            r matches Ok(s) && s@ == ws_normal(input@, self.collapses(), self.trims()),
    {
        Ok(self.apply(input.as_str()))
    }
}

/// Formats numbers: a number of decimal places, a digit-group separator.
#[derive(Debug, Clone, Copy, PartialEq, Eq, Structural)]
pub struct NumberNormalizer {
    pub decimal_places: Option<usize>,
    pub thousands_separator: Option<char>,
}

impl NumberNormalizer {
    /// No rounding, no grouping.
    pub fn new() -> (r: Self)
        ensures
            r == (NumberNormalizer { decimal_places: None, thousands_separator: None }),
    {
        NumberNormalizer { decimal_places: None, thousands_separator: None }
    }

    /// The same with `places` decimal places.
    pub fn decimal_places(self, places: usize) -> (r: Self)
        ensures
            r == (NumberNormalizer { decimal_places: Some(places), ..self }),
    {
        NumberNormalizer { decimal_places: Some(places), ..self }
    }

    /// The same with digit groups separated by `sep`.
    pub fn thousands_separator(self, sep: char) -> (r: Self)
        ensures
            r == (NumberNormalizer { thousands_separator: Some(sep), ..self }),
    {
        NumberNormalizer { thousands_separator: Some(sep), ..self }
    }
}

impl Default for NumberNormalizer {
    fn default() -> (r: Self)
        ensures
            r == (NumberNormalizer { decimal_places: None, thousands_separator: None }),
    {
        NumberNormalizer::new()
    }
}

/// The first `k` characters of `int_part` (of length `n`, digits from
/// `start`) with separators before every position `i > start` where
/// `n - i` is a multiple of three.
pub open spec fn group_prefix(int_part: Seq<char>, sep: char, start: int, k: int) -> Seq<char>
    decreases k,
{
    if k <= 0 {
        Seq::empty()
    } else {
        let i = k - 1;
        let before = group_prefix(int_part, sep, start, k - 1);
        if i > start && (int_part.len() - i) % 3 == 0 {
            before.push(sep).push(int_part[i])
        } else {
            before.push(int_part[i])
        }
    }
}

/// A decimal text with its integer digits grouped: the part before the
/// first `.` grouped by threes, then `.` and the text up to the next `.`.
pub open spec fn with_separator(s: Seq<char>, sep: char) -> Seq<char> {
    match find_first(s, '.') {
        Some(p) => {
            let int_part = s.subrange(0, p);
            let rest = s.subrange(p + 1, s.len() as int);
            let dec = match find_first(rest, '.') {
                Some(q) => rest.subrange(0, q),
                None => rest,
            };
            group_prefix(int_part, sep, if int_part.len() > 0 && int_part[0] == '-' { 1 } else { 0 }, int_part.len() as int)
                + seq!['.'] + dec
        },
        None => group_prefix(s, sep, if s.len() > 0 && s[0] == '-' { 1 } else { 0 }, s.len() as int),
    }
}

/// Group the integer digits of a decimal text with `sep`, as in
/// `1,234,567.89`. The text must not start with `.`.
pub fn add_thousands_separator(s: &str, sep: char) -> (r: String)
    requires
        s@.len() > 0,
        s@[0] != '.',
    ensures
        r@ == with_separator(s@, sep),
{
    let chars = chars_of(s);
    let n = chars.len();
    assert(chars@.subrange(0, n as int) =~= s@);
    let dot = find_in_range(&chars, 0, n, '.');
    let int_end = match dot {
        Some(p) => p,
        None => n,
    };
    proof {
        lemma_subrange_of_subrange(chars@, 0, n as int, 0, int_end as int);
    }
    let ghost int_part = chars@.subrange(0, int_end as int);
    let start: usize = if chars[0] == '-' { 1 } else { 0 };
    let mut out = String::new();
    let mut i: usize = 0;
    while i < int_end
        invariant
            int_end <= n == chars@.len(),
            int_part == chars@.subrange(0, int_end as int),
            int_end > 0 ==> start == (if int_part[0] == '-' { 1int } else { 0int }),
            i <= int_end,
            out@ == group_prefix(int_part, sep, start as int, i as int),
        decreases int_end - i,
    {
        if i > start && (int_end - i) % 3 == 0 {
            string_push(&mut out, sep);
        }
        string_push(&mut out, chars[i]);
        i = i + 1;
    }
    match dot {
        Some(p) => {
            proof {
                lemma_subrange_of_subrange(chars@, 0, n as int, p + 1, n as int);
            }
            let next = find_in_range(&chars, p + 1, n, '.');
            let dec_end = match next {
                Some(q) => q,
                None => n,
            };
            proof {
                lemma_subrange_of_subrange(chars@, p + 1, n as int, 0, dec_end - p - 1);
                assert(chars@.subrange(p + 1, n as int).subrange(0, (n - p - 1) as int) =~= chars@.subrange(p + 1, n as int));
            }
            string_push(&mut out, '.');
            let dec = string_of_range(&chars, p + 1, dec_end);
            string_push_str(&mut out, dec.as_str());
        },
        None => {},
    }
    out
}

/// The ASCII digits of a text, in order.
pub open spec fn digits_of(s: Seq<char>) -> Seq<char>
    decreases s.len(),
{
    if s.len() == 0 {
        Seq::empty()
    } else if '0' <= s.last() <= '9' {
        digits_of(s.drop_last()).push(s.last())
    } else {
        digits_of(s.drop_last())
    }
}

/// What the phone normalizer makes of a text: its digits after `+1` when
/// there are ten, after `+` otherwise; `None` under seven digits.
pub open spec fn phone_normal(s: Seq<char>) -> Option<Seq<char>> {
    let d = digits_of(s);
    if d.len() < 7 {
        None
    } else if d.len() == 10 {
        Some("+1"@ + d)
    } else {
        Some("+"@ + d)
    }
}

/// Normalizes phone numbers to `+` and digits.
#[derive(Debug, Clone, PartialEq, Eq)]
pub struct PhoneNormalizer {
    default_country: String,
}

impl PhoneNormalizer {
    /// The default country.
    pub closed spec fn country(&self) -> Seq<char> {
        self.default_country@
    }

    /// A normalizer for numbers of `default_country`.
    pub fn new(default_country: &str) -> (r: Self)
        ensures
            r.country() == default_country@,
    {
        PhoneNormalizer { default_country: to_owned_string(default_country) }
    }

    /// The ASCII digits of `phone`.
    pub fn digits_only(phone: &str) -> (r: String)
        ensures
            r@ == digits_of(phone@),
    {
        let chars = chars_of(phone);
        let n = chars.len();
        let mut out = String::new();
        let mut i: usize = 0;
        while i < n
            invariant
                n == chars@.len(),
                chars@ == phone@,
                i <= n,
                out@ == digits_of(chars@.subrange(0, i as int)),
            decreases n - i,
        {
            let c = chars[i];
            assert(chars@.subrange(0, i + 1).drop_last() =~= chars@.subrange(0, i as int));
            if '0' <= c && c <= '9' {
                string_push(&mut out, c);
            }
            i = i + 1;
        }
        assert(chars@.subrange(0, n as int) =~= phone@);
        out
    }
}

impl Normalizer<String> for PhoneNormalizer {
    open spec fn normalizes(&self, input: String, output: Result<String, NormalizeError>) -> bool {
        match phone_normal(input@) {
            Some(p) => output matches Ok(s) && s@ == p,
            None => output matches Err(NormalizeError::InvalidInput(m)) && m@ == "Phone number too short"@,
        }
    }

    fn normalize(&self, input: String) -> (r: Result<String, NormalizeError>)
        ensures
            match phone_normal(input@) {
                Some(p) => r matches Ok(s) && s@ == p,
                None => r matches Err(NormalizeError::InvalidInput(m)) && m@ == "Phone number too short"@,
            },
    {
        let digits = Self::digits_only(input.as_str());
        let n = digits.unicode_len();
        if n < 7 {
            return Err(NormalizeError::InvalidInput(to_owned_string("Phone number too short")));
        }
        let mut out = String::new();
        if n == 10 {
            string_push_str(&mut out, "+1");
        } else {
            string_push_str(&mut out, "+");
        }
        string_push_str(&mut out, digits.as_str());
        Ok(out)
    }
}

/// What the e-mail normalizer makes of a text: trimmed, it must hold one
/// `@`; the local part loses what follows its first `+` when asked, and
/// both parts are lowercased when asked.
pub open spec fn email_normal(s: Seq<char>, lowercase: bool, drop_plus: bool) -> Option<Seq<char>> {
    let t = trim(s);
    match find_first(t, '@') {
        None => None,
        Some(p) => {
            let domain = t.subrange(p + 1, t.len() as int);
            if find_first(domain, '@') is Some {
                None
            } else {
                let full_local = t.subrange(0, p);
                let local = if drop_plus {
                    match find_first(full_local, '+') {
                        Some(q) => full_local.subrange(0, q),
                        None => full_local,
                    }
                } else {
                    full_local
                };
                if lowercase {
                    Some(unicode_lowercase(local) + "@"@ + unicode_lowercase(domain))
                } else {
                    Some(local + "@"@ + domain)
                }
            }
        },
    }
}

/// Normalizes e-mail addresses.
#[derive(Debug, Clone, Copy, PartialEq, Eq, Structural)]
pub struct EmailNormalizer {
    lowercase: bool,
    remove_plus_addressing: bool,
}

impl EmailNormalizer {
    /// Whether both parts are lowercased.
    pub closed spec fn lowercases(&self) -> bool {
        self.lowercase
    }

    /// Whether a `+tag` in the local part is dropped.
    pub closed spec fn drops_plus(&self) -> bool {
        self.remove_plus_addressing
    }

    /// Lowercase, keep `+tag`s.
    pub fn new() -> (r: Self)
        ensures
            r.lowercases() && !r.drops_plus(),
    {
        EmailNormalizer { lowercase: true, remove_plus_addressing: false }
    }

    /// The same, dropping `+tag`s.
    pub fn remove_plus_addressing(self) -> (r: Self)
        ensures
            r.lowercases() == self.lowercases() && r.drops_plus(),
    {
        EmailNormalizer { remove_plus_addressing: true, ..self }
    }
}

impl Default for EmailNormalizer {
    fn default() -> (r: Self)
        ensures
            r.lowercases() && !r.drops_plus(),
    {
        EmailNormalizer::new()
    }
}

impl Normalizer<String> for EmailNormalizer {
    open spec fn normalizes(&self, input: String, output: Result<String, NormalizeError>) -> bool {
        match email_normal(input@, self.lowercases(), self.drops_plus()) {
            Some(e) => output matches Ok(s) && s@ == e,
            None => output matches Err(NormalizeError::InvalidInput(m)) && m@ == "Invalid email format"@,
        }
    }

    fn normalize(&self, input: String) -> (r: Result<String, NormalizeError>)
        ensures
            match email_normal(input@, self.lowercases(), self.drops_plus()) {
                Some(e) => r matches Ok(s) && s@ == e,
                None => r matches Err(NormalizeError::InvalidInput(m)) && m@ == "Invalid email format"@,
            },
    {
        let chars = chars_of(input.as_str());
        let n = chars.len();
        assert(chars@.subrange(0, n as int) =~= input@);
        let (a, b) = strip_range(&chars, 0, n, false);
        let ghost t = chars@.subrange(a as int, b as int);
        let p = match find_in_range(&chars, a, b, '@') {
            Some(p) => p,
            None => {
                return Err(NormalizeError::InvalidInput(to_owned_string("Invalid email format")));
            },
        };
        proof {
            lemma_subrange_of_subrange(chars@, a as int, b as int, 0, p - a);
            lemma_subrange_of_subrange(chars@, a as int, b as int, p - a + 1, b - a);
        }
        if find_in_range(&chars, p + 1, b, '@').is_some() {
            return Err(NormalizeError::InvalidInput(to_owned_string("Invalid email format")));
        }
        let mut local_end = p;
        if self.remove_plus_addressing {
            match find_in_range(&chars, a, p, '+') {
                Some(q) => {
                    proof {
                        lemma_subrange_of_subrange(chars@, a as int, p as int, 0, q - a);
                    }
                    local_end = q;
                },
                None => {},
            }
        }
        let local = string_of_range(&chars, a, local_end);
        let domain = string_of_range(&chars, p + 1, b);
        let mut out = String::new();
        if self.lowercase {
            let l = str_to_lowercase(local.as_str());
            let d = str_to_lowercase(domain.as_str());
            string_push_str(&mut out, l.as_str());
            string_push_str(&mut out, "@");
            string_push_str(&mut out, d.as_str());
        } else {
            string_push_str(&mut out, local.as_str());
            string_push_str(&mut out, "@");
            string_push_str(&mut out, domain.as_str());
        }
        Ok(out)
    }
}

/// The URL after lowercasing its scheme and host: the part up to and
/// including `://` and the part after it up to the first `/`.
pub open spec fn url_lower_host(u: Seq<char>) -> Seq<char> {
    match find_seq(u, "://"@) {
        Some(i) => {
            let scheme = u.subrange(0, i + 3);
            let rest = u.subrange(i + 3, u.len() as int);
            match find_first(rest, '/') {
                Some(j) => unicode_lowercase(scheme) + unicode_lowercase(rest.subrange(0, j)) + rest.subrange(
                    j,
                    rest.len() as int,
                ),
                None => unicode_lowercase(scheme) + unicode_lowercase(rest),
            }
        },
        None => u,
    }
}

/// The URL without the default ports `:80` and `:443` before a `/` or at
/// the end.
pub open spec fn url_without_ports(u: Seq<char>) -> Seq<char> {
    let a = replace_all(replace_all(u, ":80/"@, "/"@), ":443/"@, "/"@);
    let b = if ends_with(a, ":80"@) { a.subrange(0, a.len() - 3) } else { a };
    if ends_with(b, ":443"@) { b.subrange(0, b.len() - 4) } else { b }
}

/// The URL without a trailing `/`, unless it ends in `://`.
pub open spec fn url_without_slash(u: Seq<char>) -> Seq<char> {
    if ends_with(u, "/"@) && !ends_with(u, "://"@) { u.drop_last() } else { u }
}

/// What a URL normalizer makes of a text.
pub open spec fn url_normal(s: Seq<char>, lower_host: bool, no_slash: bool, no_port: bool) -> Seq<char> {
    let u0 = trim(s);
    let u1 = if lower_host { url_lower_host(u0) } else { u0 };
    let u2 = if no_port { url_without_ports(u1) } else { u1 };
    if no_slash { url_without_slash(u2) } else { u2 }
}

/// Normalizes URLs: lowercase scheme and host, no default port, no
/// trailing slash.
#[derive(Debug, Clone, Copy, PartialEq, Eq, Structural)]
pub struct UrlNormalizer {
    lowercase_host: bool,
    remove_trailing_slash: bool,
    remove_default_port: bool,
}

/// `chars[lo..hi]` as a string, by view.
fn lower_range(chars: &Vec<char>, lo: usize, hi: usize) -> (r: String)
    requires
        lo <= hi <= chars@.len(),
    ensures
        r@ == unicode_lowercase(chars@.subrange(lo as int, hi as int)),
{
    let s = string_of_range(chars, lo, hi);
    str_to_lowercase(s.as_str())
}

impl UrlNormalizer {
    /// Whether scheme and host are lowercased.
    pub closed spec fn lowers_host(&self) -> bool {
        self.lowercase_host
    }

    /// Whether a trailing slash is dropped.
    pub closed spec fn drops_slash(&self) -> bool {
        self.remove_trailing_slash
    }

    /// Whether default ports are dropped.
    pub closed spec fn drops_port(&self) -> bool {
        self.remove_default_port
    }

    /// All three normalizations.
    pub fn new() -> (r: Self)
        ensures
            r.lowers_host() && r.drops_slash() && r.drops_port(),
    {
        UrlNormalizer { lowercase_host: true, remove_trailing_slash: true, remove_default_port: true }
    }

    /// `input` normalized.
    pub fn apply(&self, input: &str) -> (r: String)
        ensures
            r@ == url_normal(input@, self.lowers_host(), self.drops_slash(), self.drops_port()),
    {
        let chars = chars_of(input);
        let n = chars.len();
        assert(chars@.subrange(0, n as int) =~= input@);
        let (a, b) = strip_range(&chars, 0, n, false);
        let mut url = string_of_range(&chars, a, b);
        if self.lowercase_host {
            let uc = chars_of(url.as_str());
            let sep = chars_of("://");
            match find_seq_exec(&uc, &sep) {
                Some(i) => {
                    let ghost u = uc@;
                    let m = uc.len();
                    assert(i + 3 <= m) by {
                        assert(sep@ == "://"@);
                        reveal_strlit("://");
                        lemma_find_seq_bound(u, sep@);
                    }
                    proof {
                        lemma_subrange_of_subrange(u, i + 3, m as int, 0, m - i - 3);
                        assert(u.subrange(i + 3, m as int).subrange(0, m - i - 3) =~= u.subrange(i + 3, m as int));
                    }
                    let mut out = lower_range(&uc, 0, i + 3);
                    match find_in_range(&uc, i + 3, m, '/') {
                        Some(j) => {
                            proof {
                                lemma_subrange_of_subrange(u, i + 3, m as int, 0, j - i - 3);
                                lemma_subrange_of_subrange(u, i + 3, m as int, j - i - 3, m - i - 3);
                            }
                            let host = lower_range(&uc, i + 3, j);
                            let path = string_of_range(&uc, j, m);
                            string_push_str(&mut out, host.as_str());
                            string_push_str(&mut out, path.as_str());
                        },
                        None => {
                            let host = lower_range(&uc, i + 3, m);
                            string_push_str(&mut out, host.as_str());
                        },
                    }
                    url = out;
                },
                None => {},
            }
        }
        if self.remove_default_port {
            let uc = chars_of(url.as_str());
            let p80 = chars_of(":80/");
            let a1 = replace_all_exec(&uc, &p80, "/");
            let ac = chars_of(a1.as_str());
            let p443 = chars_of(":443/");
            let a2 = replace_all_exec(&ac, &p443, "/");
            let mut bc = chars_of(a2.as_str());
            assert(bc@ == replace_all(replace_all(uc@, ":80/"@, "/"@), ":443/"@, "/"@));
            let e80 = chars_of(":80");
            if ends_with_exec(&bc, &e80) {
                proof {
                    reveal_strlit(":80");
                }
                let k = bc.len() - 3;
                bc.truncate(k);
            }
            let e443 = chars_of(":443");
            if ends_with_exec(&bc, &e443) {
                proof {
                    reveal_strlit(":443");
                }
                let k = bc.len() - 4;
                bc.truncate(k);
            }
            let m = bc.len();
            url = string_of_range(&bc, 0, m);
            assert(bc@.subrange(0, m as int) =~= bc@);
        }
        if self.remove_trailing_slash {
            let uc = chars_of(url.as_str());
            let slash = chars_of("/");
            let scheme_end = chars_of("://");
            if ends_with_exec(&uc, &slash) && !ends_with_exec(&uc, &scheme_end) {
                proof {
                    reveal_strlit("/");
                }
                let m = uc.len() - 1;
                url = string_of_range(&uc, 0, m);
                assert(uc@.subrange(0, m as int) =~= uc@.drop_last());
            }
        }
        url
    }
}

/// Where `find_seq` finds `pat`, all of `pat` lies inside `s`.
proof fn lemma_find_seq_bound(s: Seq<char>, pat: Seq<char>)
    ensures
        find_seq(s, pat) matches Some(i) ==> 0 <= i && i + pat.len() <= s.len(),
{
    crate::chars::lemma_find_seq(s, pat);
}

impl Default for UrlNormalizer {
    fn default() -> (r: Self)
        ensures
            r.lowers_host() && r.drops_slash() && r.drops_port(),
    {
        UrlNormalizer::new()
    }
}

impl Normalizer<String> for UrlNormalizer {
    open spec fn normalizes(&self, input: String, output: Result<String, NormalizeError>) -> bool {
        output matches Ok(s) && s@ == url_normal(input@, self.lowers_host(), self.drops_slash(), self.drops_port())
    }

    fn normalize(&self, input: String) -> (r: Result<String, NormalizeError>)
        ensures
            r matches Ok(s) && s@ == url_normal(input@, self.lowers_host(), self.drops_slash(), self.drops_port()),
    {
        Ok(self.apply(input.as_str()))
    }
}

/// One normalizer of a chain.
#[verifier::reject_recursive_types(T)]
struct Step<T> {
    normalizer: Box<dyn Normalizer<T>>,
}

/// A chain step running `n`.
fn make_step<T, N: Normalizer<T> + 'static>(n: N) -> Step<T> {
    Step { normalizer: Box::new(n) }
}

/// Append a step.
fn push_step<T>(v: &mut Vec<Step<T>>, step: Step<T>)
    ensures
        final(v)@.len() == old(v)@.len() + 1,
{
    v.push(step);
}

/// Normalizers applied one after the other; the first error stops the chain.
#[verifier::reject_recursive_types(T)]
pub struct NormalizerChain<T> {
    normalizers: Vec<Step<T>>,
}

impl<T> NormalizerChain<T> {
    /// The number of normalizers.
    pub closed spec fn size(&self) -> nat {
        self.normalizers@.len()
    }

    /// An empty chain.
    pub fn new() -> (r: Self)
        ensures
            r.size() == 0,
    {
        NormalizerChain { normalizers: Vec::new() }
    }

    /// The chain with `normalizer` applied last.
    pub fn add<N: Normalizer<T> + 'static>(self, normalizer: N) -> (r: Self)
        ensures
            r.size() == self.size() + 1,
    {
        let mut normalizers = self.normalizers;
        push_step(&mut normalizers, make_step(normalizer));
        NormalizerChain { normalizers }
    }
}

impl<T> Default for NormalizerChain<T> {
    fn default() -> (r: Self)
        ensures
            r.size() == 0,
    {
        NormalizerChain::new()
    }
}

/// `vals` runs from `input` through the first steps of `steps`, each
/// normalizing the value before it into the one after it.
spec fn passes_through<T>(steps: Seq<Step<T>>, vals: Seq<T>, input: T) -> bool {
    &&& 1 <= vals.len() <= steps.len() + 1
    &&& vals[0] == input
    &&& forall|i: int| 0 <= i < vals.len() - 1 ==> steps[i].normalizer.normalizes(#[trigger] vals[i], Ok(vals[i + 1]))
}

/// `output` is what `steps` give `input`, applied in turn: the last value
/// where every step succeeds, else the error of the first step that fails.
spec fn chain_gives<T>(steps: Seq<Step<T>>, input: T, output: Result<T, NormalizeError>) -> bool {
    exists|vals: Seq<T>| #[trigger] passes_through(steps, vals, input) && if vals.len() == steps.len() + 1 {
        output == Ok::<T, NormalizeError>(vals.last())
    } else {
        output is Err && steps[vals.len() - 1].normalizer.normalizes(vals.last(), output)
    }
}

impl<T> Normalizer<T> for NormalizerChain<T> {
    /// The normalizers applied in turn, the first error stopping the chain.
    closed spec fn normalizes(&self, input: T, output: Result<T, NormalizeError>) -> bool {
        chain_gives(self.normalizers@, input, output)
    }

    fn normalize(&self, input: T) -> (r: Result<T, NormalizeError>)
        ensures
            self.size() == 0 ==> r == Ok::<T, NormalizeError>(input),
    {
        let ghost steps = self.normalizers@;
        let mut current = input;
        let ghost mut vals: Seq<T> = seq![current];
        let mut i: usize = 0;
        while i < self.normalizers.len()
            invariant
                steps == self.normalizers@,
                i <= steps.len(),
                vals.len() == i + 1,
                vals.last() == current,
                passes_through(steps, vals, input),
            decreases self.normalizers@.len() - i,
        {
            match self.normalizers[i].normalizer.normalize(current) {
                Ok(v) => {
                    proof {
                        let v0 = vals;
                        vals = vals.push(v);
                        assert forall|j: int| 0 <= j < vals.len() - 1 implies steps[j].normalizer.normalizes(#[trigger] vals[j], Ok(vals[j + 1])) by {
                            if j < v0.len() - 1 {
                                assert(vals[j] == v0[j] && vals[j + 1] == v0[j + 1]);
                            }
                        }
                    }
                    current = v;
                },
                Err(e) => {
                    proof {
                        assert(passes_through(steps, vals, input));
                    }
                    return Err(e);
                },
            }
            i = i + 1;
        }
        proof {
            assert(passes_through(steps, vals, input));
        }
        Ok(current)
    }
}

} // verus!
