//! Messages: identifiers, priorities, headers with a time to live, typed
//! bodies, a builder, and the base64 text that binary bodies travel as.

use vstd::prelude::*;
use crate::ids::{new_uuid, uuid_high_bits};
use vstd::string::StringSliceAdditionalSpecFns;
use vstd::utf8::{encode_utf8, is_ascii_chars};
use crate::clock::utc_now_millis;
use crate::multimap::distinct_keys;
use crate::pairs::{param_views, put_param, put_param_exec};
use crate::text::{string_push, string_push_str, to_owned_string};

verus! {

/// Errors of message handling.
#[derive(Debug, Clone, PartialEq, Eq)]
pub enum MessageError {
    Invalid(String),
    Serialization(String),
    MissingField(String),
}

impl MessageError {
    /// The error's description.
    pub fn message(&self) -> (r: String)
        ensures
            r@ == match self {
                MessageError::Invalid(s) => "Invalid message: "@ + s@,
                MessageError::Serialization(s) => "Serialization error: "@ + s@,
                MessageError::MissingField(s) => "Missing required field: "@ + s@,
            },
    {
        let mut out = String::new();
        match self {
            MessageError::Invalid(s) => {
                string_push_str(&mut out, "Invalid message: ");
                string_push_str(&mut out, s.as_str());
            },
            MessageError::Serialization(s) => {
                string_push_str(&mut out, "Serialization error: ");
                string_push_str(&mut out, s.as_str());
            },
            MessageError::MissingField(s) => {
                string_push_str(&mut out, "Missing required field: ");
                string_push_str(&mut out, s.as_str());
            },
        }
        out
    }
}

/// The base64 character for a six-bit value.
pub open spec fn b64_char(i: u8) -> char {
    if i < 26 {
        ((65 + i) as u32) as char
    } else if i < 52 {
        ((71 + i) as u32) as char
    } else if i < 62 {
        ((i - 4) as u32) as char
    } else if i == 62 {
        '+'
    } else {
        '/'
    }
}

/// The four characters for one group of one to three bytes, padded with `=`.
pub open spec fn encode_group(g: Seq<u8>) -> Seq<char> {
    let b0 = g[0];
    let b1: u8 = if g.len() > 1 { g[1] } else { 0 };
    let b2: u8 = if g.len() > 2 { g[2] } else { 0 };
    seq![
        b64_char(b0 >> 2),
        b64_char(((b0 & 3) << 4) | (b1 >> 4)),
        if g.len() > 1 { b64_char(((b1 & 15) << 2) | (b2 >> 6)) } else { '=' },
        if g.len() > 2 { b64_char(b2 & 63) } else { '=' },
    ]
}

/// The base64 text (standard alphabet, padded) of some bytes.
pub open spec fn base64_text(d: Seq<u8>) -> Seq<char>
    decreases d.len(),
{
    if d.len() == 0 {
        Seq::empty()
    } else {
        let k = if d.len() < 3 { d.len() as int } else { 3 };
        encode_group(d.take(k)) + base64_text(d.skip(k))
    }
}

/// The six-bit value of a base64 byte, or -1.
pub open spec fn sextet(c: u8) -> i8 {
    if 65 <= c <= 90 {
        (c - 65) as i8
    } else if 97 <= c <= 122 {
        (c - 71) as i8
    } else if 48 <= c <= 57 {
        (c + 4) as i8
    } else if c == 43 {
        62
    } else if c == 47 {
        63
    } else {
        -1i8
    }
}

/// The value of the third or fourth byte of a group: as for the first two,
/// but zero for a byte outside ASCII.
pub open spec fn late_sextet(c: u8) -> i8 {
    if c < 128 { sextet(c) } else { 0 }
}

/// The bytes one group of two to four base64 bytes stands for.
pub open spec fn decode_group(g: Seq<u8>) -> Seq<u8> {
    let b0 = sextet(g[0]);
    let b1 = sextet(g[1]);
    let b2: i8 = if g.len() > 2 { late_sextet(g[2]) } else { 0 };
    let b3: i8 = if g.len() > 3 { late_sextet(g[3]) } else { 0 };
    let first = seq![((b0 << 2) | (b1 >> 4)) as u8];
    let second = if g.len() > 2 { seq![(((b1 & 15) << 4) | (b2 >> 2)) as u8] } else { Seq::empty() };
    let third = if g.len() > 3 { seq![(((b2 & 3) << 6) | b3) as u8] } else { Seq::empty() };
    first + second + third
}

/// The bytes that base64 bytes (padding already dropped) stand for, read
/// four at a time; a group of fewer than two ends the reading; `None` where
/// the first or second byte of a group is not base64.
pub open spec fn decode_bytes(b: Seq<u8>) -> Option<Seq<u8>>
    decreases b.len(),
{
    if b.len() < 2 {
        Some(Seq::empty())
    } else {
        let k = if b.len() < 4 { b.len() as int } else { 4 };
        let g = b.take(k);
        if sextet(g[0]) < 0 || sextet(g[1]) < 0 {
            None
        } else {
            match decode_bytes(b.skip(k)) {
                Some(rest) => Some(decode_group(g) + rest),
                None => None,
            }
        }
    }
}

/// The bytes without the padding byte `=`.
pub open spec fn without_padding(b: Seq<u8>) -> Seq<u8>
    decreases b.len(),
{
    if b.len() == 0 {
        Seq::empty()
    } else if b.last() == 61 {
        without_padding(b.drop_last())
    } else {
        without_padding(b.drop_last()).push(b.last())
    }
}

/// The base64 character for a six-bit value.
fn b64_digit(i: u8) -> (c: char)
    requires
        i < 64,
    ensures
        c == b64_char(i),
{
    if i < 26 {
        (65 + i) as char
    } else if i < 52 {
        (71 + i) as char
    } else if i < 62 {
        (i - 4) as char
    } else if i == 62 {
        '+'
    } else {
        '/'
    }
}

/// The base64 text (standard alphabet, padded) of `data`.
pub fn base64_encode(data: &[u8]) -> (r: String)
    ensures
        r@ == base64_text(data@),
{
    let n = data.len();
    let mut out = String::new();
    let mut i: usize = 0;
    assert(data@.skip(0) =~= data@);
    while i < n
        invariant
            n == data@.len(),
            i <= n,
            out@ + base64_text(data@.skip(i as int)) == base64_text(data@),
        decreases n - i,
    {
        let ghost rest = data@.skip(i as int);
        let k: usize = if n - i < 3 { n - i } else { 3 };
        let b0 = data[i];
        let b1: u8 = if k > 1 { data[i + 1] } else { 0 };
        let b2: u8 = if k > 2 { data[i + 2] } else { 0 };
        let ghost g = rest.take(k as int);
        assert(g[0] == b0);
        assert(k > 1 ==> g[1] == b1);
        assert(k > 2 ==> g[2] == b2);
        let ghost old_out = out@;
        assert(b0 >> 2 < 64) by (bit_vector);
        assert(((b0 & 3) << 4) | (b1 >> 4) < 64) by (bit_vector);
        assert(((b1 & 15) << 2) | (b2 >> 6) < 64) by (bit_vector);
        assert(b2 & 63 < 64) by (bit_vector);
        string_push(&mut out, b64_digit(b0 >> 2));
        string_push(&mut out, b64_digit(((b0 & 3) << 4) | (b1 >> 4)));
        if k > 1 {
            string_push(&mut out, b64_digit(((b1 & 15) << 2) | (b2 >> 6)));
        } else {
            string_push(&mut out, '=');
        }
        if k > 2 {
            string_push(&mut out, b64_digit(b2 & 63));
        } else {
            string_push(&mut out, '=');
        }
        proof {
            assert(out@ =~= old_out + encode_group(g));
            assert(rest.skip(k as int) =~= data@.skip(i + k));
            assert(old_out + base64_text(rest) =~= out@ + base64_text(data@.skip(i + k)));
        }
        i = i + k;
    }
    assert(data@.skip(n as int) =~= Seq::<u8>::empty());
    out
}

/// The six-bit value of a base64 byte, or -1.
fn sextet_of(c: u8) -> (r: i8)
    ensures
        r == sextet(c),
{
    if 65 <= c && c <= 90 {
        (c - 65) as i8
    } else if 97 <= c && c <= 122 {
        (c - 71) as i8
    } else if 48 <= c && c <= 57 {
        (c + 4) as i8
    } else if c == 43 {
        62
    } else if c == 47 {
        63
    } else {
        -1
    }
}

/// The bytes of base64 text `s`; padding is ignored, a group of fewer than
/// two bytes ends the reading; an error where the first or second byte of
/// a group is not base64.
pub fn base64_decode(s: &str) -> (r: Result<Vec<u8>, String>)
    ensures
        match decode_bytes(without_padding(s.spec_bytes())) {
            Some(d) => r matches Ok(v) && v@ == d,
            None => r matches Err(m) && m@ == "Invalid base64"@,
        },
{
    let raw = s.as_bytes();
    let mut bytes: Vec<u8> = Vec::new();
    let mut j: usize = 0;
    while j < raw.len()
        invariant
            j <= raw@.len(),
            bytes@ == without_padding(raw@.take(j as int)),
        decreases raw@.len() - j,
    {
        assert(raw@.take(j + 1).drop_last() =~= raw@.take(j as int));
        if raw[j] != 61 {
            bytes.push(raw[j]);
        }
        j = j + 1;
    }
    assert(raw@.take(raw@.len() as int) =~= raw@);
    let ghost b = bytes@;
    assert(b == without_padding(s.spec_bytes()));
    let n = bytes.len();
    let mut out: Vec<u8> = Vec::new();
    let mut i: usize = 0;
    assert(b.skip(0) =~= b);
    while i < n
        invariant
            n == b.len(),
            b == bytes@,
            b == without_padding(s.spec_bytes()),
            i <= n,
            match decode_bytes(b.skip(i as int)) {
                Some(rest) => decode_bytes(b) == Some(out@ + rest),
                None => decode_bytes(b) is None,
            },
        decreases n - i,
    {
        let ghost rest = b.skip(i as int);
        let k: usize = if n - i < 4 { n - i } else { 4 };
        if k < 2 {
            assert(decode_bytes(rest) == Some(Seq::<u8>::empty()));
            assert(out@ + Seq::<u8>::empty() =~= out@);
            i = n;
            assert(b.skip(n as int) =~= Seq::<u8>::empty());
        } else {
            let ghost g = rest.take(k as int);
            let c0 = bytes[i];
            let c1 = bytes[i + 1];
            assert(g[0] == c0 && g[1] == c1);
            let b0: i8 = if c0 < 128 { sextet_of(c0) } else { -1 };
            let b1: i8 = if c1 < 128 { sextet_of(c1) } else { -1 };
            assert(b0 == sextet(c0) && b1 == sextet(c1));
            if b0 < 0 || b1 < 0 {
                assert(decode_bytes(rest) is None);
                return Err(to_owned_string("Invalid base64"));
            }
            let b2: i8 = if k > 2 { if bytes[i + 2] < 128 { sextet_of(bytes[i + 2]) } else { 0 } } else { 0 };
            let b3: i8 = if k > 3 { if bytes[i + 3] < 128 { sextet_of(bytes[i + 3]) } else { 0 } } else { 0 };
            assert(k > 2 ==> b2 == late_sextet(g[2]));
            assert(k > 3 ==> b3 == late_sextet(g[3]));
            let ghost old_out = out@;
            out.push(((b0 << 2) | (b1 >> 4)) as u8);
            if k > 2 {
                out.push((((b1 & 15) << 4) | (b2 >> 2)) as u8);
            }
            if k > 3 {
                out.push((((b2 & 3) << 6) | b3) as u8);
            }
            proof {
                assert(out@ =~= old_out + decode_group(g));
                assert(rest.skip(k as int) =~= b.skip(i + k));
                match decode_bytes(b.skip(i + k)) {
                    Some(r2) => {
                        assert(old_out + (decode_group(g) + r2) =~= out@ + r2);
                    },
                    None => {},
                }
            }
            i = i + k;
        }
    }
    assert(b.skip(i as int) =~= Seq::<u8>::empty());
    assert(decode_bytes(b.skip(i as int)) == Some(Seq::<u8>::empty()));
    assert(out@ + Seq::<u8>::empty() =~= out@);
    assert(decode_bytes(b) == Some(out@));
    Ok(out)
}

/// The bytes of an ASCII text.
pub open spec fn ascii_bytes(cs: Seq<char>) -> Seq<u8> {
    cs.map_values(|c: char| c as u8)
}

/// The bytes of one encoded group without its padding.
pub open spec fn bare_group(g: Seq<u8>) -> Seq<u8> {
    ascii_bytes(encode_group(g)).take(g.len() + 1int)
}

/// The bytes of the base64 text of `d` without padding.
pub open spec fn bare_text(d: Seq<u8>) -> Seq<u8>
    decreases d.len(),
{
    if d.len() == 0 {
        Seq::empty()
    } else {
        let k = if d.len() < 3 { d.len() as int } else { 3 };
        bare_group(d.take(k)) + bare_text(d.skip(k))
    }
}

/// A base64 character is ASCII, is not `=`, and reads back as its value.
proof fn lemma_b64_char(i: u8)
    requires
        i < 64,
    ensures
        (b64_char(i) as u32) < 128,
        b64_char(i) != '=',
        sextet(b64_char(i) as u8) == i as i8,
        late_sextet(b64_char(i) as u8) == i as i8,
{
}

/// Reading back the four values of a group gives its bytes.
proof fn lemma_group_bits(b0: u8, b1: u8, b2: u8, s0: i8, s1: i8, s2: i8, s3: i8)
    by (bit_vector)
    requires
        s0 == (b0 >> 2) as i8,
        s1 == (((b0 & 3) << 4) | (b1 >> 4)) as i8,
        s2 == (((b1 & 15) << 2) | (b2 >> 6)) as i8,
        s3 == (b2 & 63) as i8,
    ensures
        ((s0 << 2) | (s1 >> 4)) as u8 == b0,
        (((s1 & 15) << 4) | (s2 >> 2)) as u8 == b1,
        (((s2 & 3) << 6) | s3) as u8 == b2,
{
}

/// The values of a group are below 64.
proof fn lemma_group_small(b0: u8, b1: u8, b2: u8)
    by (bit_vector)
    ensures
        b0 >> 2 < 64,
        ((b0 & 3) << 4) | (b1 >> 4) < 64,
        ((b1 & 15) << 2) | (b2 >> 6) < 64,
        b2 & 63 < 64,
{
}

/// One group: ASCII, padding only after its first `len + 1` characters,
/// and those read back to the group.
proof fn lemma_group_roundtrip(g: Seq<u8>)
    requires
        1 <= g.len() <= 3,
    ensures
        is_ascii_chars(encode_group(g)),
        without_padding(ascii_bytes(encode_group(g))) == bare_group(g),
        sextet(bare_group(g)[0]) >= 0,
        sextet(bare_group(g)[1]) >= 0,
        decode_group(bare_group(g)) == g,
{
    let b0 = g[0];
    let b1: u8 = if g.len() > 1 { g[1] } else { 0 };
    let b2: u8 = if g.len() > 2 { g[2] } else { 0 };
    lemma_group_small(b0, b1, b2);
    let v0: u8 = b0 >> 2;
    let v1: u8 = ((b0 & 3) << 4) | (b1 >> 4);
    let v2: u8 = ((b1 & 15) << 2) | (b2 >> 6);
    let v3: u8 = b2 & 63;
    lemma_b64_char(v0);
    lemma_b64_char(v1);
    lemma_b64_char(v2);
    lemma_b64_char(v3);
    let e = encode_group(g);
    let bytes = ascii_bytes(e);
    assert(is_ascii_chars(e));
    let bare = bare_group(g);
    assert(bare[0] == b64_char(v0) as u8);
    assert(bare[1] == b64_char(v1) as u8);
    lemma_group_bits(b0, b1, b2, v0 as i8, v1 as i8, v2 as i8, v3 as i8);
    reveal_with_fuel(without_padding, 5);
    if g.len() == 1 {
        assert(bytes[2] == 61u8 && bytes[3] == 61u8);
        assert(bytes.drop_last().drop_last() =~= bare);
        assert(bare.drop_last().drop_last() =~= Seq::<u8>::empty());
        assert(decode_group(bare) =~= seq![b0]);
        assert(g =~= seq![b0]);
    } else if g.len() == 2 {
        assert(bare[2] == b64_char(v2) as u8);
        assert(bytes[3] == 61u8);
        assert(bytes.drop_last() =~= bare);
        assert(bare.drop_last().drop_last().drop_last() =~= Seq::<u8>::empty());
        assert(decode_group(bare) =~= seq![b0, b1]);
        assert(g =~= seq![b0, b1]);
    } else {
        assert(bare[2] == b64_char(v2) as u8);
        assert(bare[3] == b64_char(v3) as u8);
        assert(bytes =~= bare);
        assert(bare.drop_last().drop_last().drop_last().drop_last() =~= Seq::<u8>::empty());
        assert(decode_group(bare) =~= seq![b0, b1, b2]);
        assert(g =~= seq![b0, b1, b2]);
    }
}

/// Dropping padding from two joined byte strings drops it from each.
proof fn lemma_without_padding_concat(a: Seq<u8>, b: Seq<u8>)
    ensures
        without_padding(a + b) == without_padding(a) + without_padding(b),
    decreases b.len(),
{
    if b.len() == 0 {
        assert(a + b =~= a);
        assert(without_padding(a) + without_padding(b) =~= without_padding(a));
    } else {
        lemma_without_padding_concat(a, b.drop_last());
        assert((a + b).drop_last() =~= a + b.drop_last());
        if b.last() == 61 {
        } else {
            assert(without_padding(a) + without_padding(b.drop_last()).push(b.last()) =~= (without_padding(a)
                + without_padding(b.drop_last())).push(b.last()));
        }
    }
}

/// The base64 text of `d` is ASCII, and its bytes without padding are the
/// bare groups.
proof fn lemma_text_bytes(d: Seq<u8>)
    ensures
        is_ascii_chars(base64_text(d)),
        without_padding(ascii_bytes(base64_text(d))) == bare_text(d),
    decreases d.len(),
{
    if d.len() > 0 {
        let k = if d.len() < 3 { d.len() as int } else { 3 };
        let g = d.take(k);
        lemma_group_roundtrip(g);
        lemma_text_bytes(d.skip(k));
        let e = encode_group(g);
        let rest = base64_text(d.skip(k));
        assert(ascii_bytes(e + rest) =~= ascii_bytes(e) + ascii_bytes(rest));
        lemma_without_padding_concat(ascii_bytes(e), ascii_bytes(rest));
        assert(is_ascii_chars(e + rest)) by {
            assert forall|i: int| 0 <= i < (e + rest).len() implies '\0' <= #[trigger] (e + rest)[i] <= '\u{7f}' by {
                if i < e.len() {
                    assert((e + rest)[i] == e[i]);
                } else {
                    assert((e + rest)[i] == rest[i - e.len()]);
                }
            }
        }
    }
}

/// The bare groups of `d` read back to `d`.
proof fn lemma_decode_bare(d: Seq<u8>)
    ensures
        decode_bytes(bare_text(d)) == Some(d),
    decreases d.len(),
{
    if d.len() > 0 {
        let k = if d.len() < 3 { d.len() as int } else { 3 };
        let g = d.take(k);
        let rest = d.skip(k);
        lemma_group_roundtrip(g);
        lemma_decode_bare(rest);
        let bare = bare_group(g);
        let x = bare + bare_text(rest);
        assert(bare.len() == k + 1);
        if k == 3 {
            assert(x.take(4) =~= bare);
            assert(x.skip(4) =~= bare_text(rest));
        } else {
            assert(rest.len() == 0);
            assert(bare_text(rest) =~= Seq::<u8>::empty());
            assert(x.take(k + 1) =~= bare);
            assert(x.skip(k + 1) =~= Seq::<u8>::empty());
        }
        assert(g + rest =~= d);
    }
}

/// Reading back the base64 text of some bytes gives those bytes.
pub proof fn lemma_base64_roundtrip(d: Seq<u8>)
    ensures
        decode_bytes(without_padding(encode_utf8(base64_text(d)))) == Some(d),
{
    lemma_text_bytes(d);
    let t = base64_text(d);
    vstd::utf8::is_ascii_chars_encode_utf8(t);
    assert(encode_utf8(t) =~= ascii_bytes(t));
    lemma_decode_bare(d);
}

#[verifier::external_type_specification]
#[verifier::external_body]
pub struct ExJsonValue(serde_json::Value);

/// The lowercase hexadecimal digits of `n`.
pub open spec fn lower_hex(n: nat) -> Seq<char>
    decreases n,
{
    if n < 16 {
        seq![lower_hex_char(n)]
    } else {
        lower_hex(n / 16).push(lower_hex_char(n % 16))
    }
}

/// The lowercase hexadecimal digit for `d`.
pub open spec fn lower_hex_char(d: nat) -> char {
    if d < 10 {
        ((d + 48) as u32) as char
    } else {
        ((d + 87) as u32) as char
    }
}

/// The lowercase hexadecimal digit for `d`.
fn lower_hex_digit(d: u64) -> (c: char)
    requires
        d < 16,
    ensures
        c == lower_hex_char(d as nat),
{
    if d < 10 {
        (48 + d as u8) as char
    } else {
        (87 + d as u8) as char
    }
}

/// Append the lowercase hexadecimal digits of `n`.
fn push_lower_hex(out: &mut String, n: u64)
    ensures
        final(out)@ == old(out)@ + lower_hex(n as nat),
    decreases n,
{
    if n < 16 {
        string_push(out, lower_hex_digit(n));
        assert(lower_hex(n as nat) =~= seq![lower_hex_char(n as nat)]);
    } else {
        push_lower_hex(out, n / 16);
        string_push(out, lower_hex_digit(n % 16));
        assert(old(out)@ + lower_hex(n as nat) =~= old(out)@ + lower_hex((n / 16) as nat) + seq![
            lower_hex_char((n % 16) as nat),
        ]);
    }
}

/// A random number: the high bits of a random identifier.
fn random_u64() -> u64 {
    uuid_high_bits(&new_uuid())
}

/// The identifier of a message.
#[derive(Debug, Clone, PartialEq, Eq, Hash)]
pub struct MessageId(pub String);

impl MessageId {
    /// A new identifier: the time in milliseconds and a random number, both
    /// in lowercase hexadecimal, joined by `-`.
    pub fn new() -> (r: Self)
        ensures
            exists|ts: u64, seq: u64| r.0@ == lower_hex(ts as nat) + "-"@ + lower_hex(seq as nat),
    {
        let ts = crate::clock::unix_millis();
        let seq = random_u64();
        let mut out = String::new();
        push_lower_hex(&mut out, ts);
        string_push(&mut out, '-');
        push_lower_hex(&mut out, seq);
        proof {
            reveal_strlit("-");
            assert(out@ =~= lower_hex(ts as nat) + "-"@ + lower_hex(seq as nat));
        }
        MessageId(out)
    }

    /// The identifier `s`.
    pub fn from_str(s: &str) -> (r: Self)
        ensures
            r.0@ == s@,
    {
        MessageId(to_owned_string(s))
    }

    /// The identifier's text.
    pub fn as_str(&self) -> (r: &str)
        ensures
            r@ == self.0@,
    {
        self.0.as_str()
    }
}

impl Default for MessageId {
    fn default() -> (r: Self) {
        MessageId::new()
    }
}

/// Message priorities, lowest first.
#[derive(Debug, Clone, Copy, PartialEq, Eq, PartialOrd, Ord, Hash, Structural)]
pub enum Priority {
    Low,
    Normal,
    High,
    Urgent,
}

impl Default for Priority {
    fn default() -> (r: Self)
        ensures
            r == Priority::Normal,
    {
        Priority::Normal
    }
}

/// A message header.
#[derive(Debug, Clone)]
pub struct MessageHeader {
    pub id: MessageId,
    pub message_type: String,
    /// When the header was made, in milliseconds since the Unix epoch.
    pub timestamp_millis: i64,
    pub priority: Priority,
    pub correlation_id: Option<MessageId>,
    pub reply_to: Option<String>,
    /// Time to live in seconds.
    pub ttl: Option<u64>,
    /// Custom headers in the order first set; no name twice.
    pub headers: Vec<(String, String)>,
}

/// Whether a message made at `timestamp_millis` with time to live `ttl`
/// (seconds) has expired at `now_millis`: only with a time to live, once
/// `now` is past the end.
pub open spec fn expired(timestamp_millis: i64, ttl: Option<u64>, now_millis: i64) -> bool {
    match ttl {
        Some(t) => now_millis > timestamp_millis + t * 1000,
        None => false,
    }
}

impl MessageHeader {
    /// A header of type `message_type` made now, normal priority, nothing
    /// else set.
    pub fn new(message_type: &str) -> (r: Self)
        ensures
            r.message_type@ == message_type@,
            r.priority == Priority::Normal,
            r.correlation_id is None,
            r.reply_to is None,
            r.ttl is None,
            r.headers@.len() == 0,
    {
        MessageHeader {
            id: MessageId::new(),
            message_type: to_owned_string(message_type),
            timestamp_millis: utc_now_millis(),
            priority: Priority::Normal,
            correlation_id: None,
            reply_to: None,
            ttl: None,
            headers: Vec::new(),
        }
    }

    /// The same header with `priority`.
    pub fn with_priority(self, priority: Priority) -> (r: Self)
        ensures
            r.priority == priority,
            r.ttl == self.ttl,
            r.message_type == self.message_type,
            r.headers == self.headers,
    {
        MessageHeader { priority, ..self }
    }

    /// The same header correlated with `id`.
    pub fn with_correlation(self, id: MessageId) -> (r: Self)
        ensures
            r.correlation_id == Some(id),
            r.priority == self.priority,
            r.ttl == self.ttl,
    {
        MessageHeader { correlation_id: Some(id), ..self }
    }

    /// The same header answering to `address`.
    pub fn with_reply_to(self, address: &str) -> (r: Self)
        ensures
            r.reply_to matches Some(a) && a@ == address@,
            r.priority == self.priority,
            r.ttl == self.ttl,
    {
        MessageHeader { reply_to: Some(to_owned_string(address)), ..self }
    }

    /// The same header with a time to live of `ttl` seconds.
    pub fn with_ttl(self, ttl: u64) -> (r: Self)
        ensures
            r.ttl == Some(ttl),
            r.priority == self.priority,
            r.message_type == self.message_type,
            r.timestamp_millis == self.timestamp_millis,
    {
        MessageHeader { ttl: Some(ttl), ..self }
    }

    /// The same header with custom header `key` set to `value`.
    pub fn with_header(self, key: &str, value: &str) -> (r: Self)
        requires
            distinct_keys(param_views(self.headers@)),
        ensures
            distinct_keys(param_views(r.headers@)),
            param_views(r.headers@) == put_param(param_views(self.headers@), key@, value@),
            r.priority == self.priority,
            r.ttl == self.ttl,
    {
        let mut h = self;
        put_param_exec(&mut h.headers, to_owned_string(key), to_owned_string(value));
        h
    }

    /// Whether the time to live has run out at `now_millis`.
    pub fn is_expired_at(&self, now_millis: i64) -> (r: bool)
        ensures
            r == expired(self.timestamp_millis, self.ttl, now_millis),
    {
        match self.ttl {
            Some(t) => (now_millis as i128) > (self.timestamp_millis as i128) + (t as i128) * 1000,
            None => false,
        }
    }

    /// Whether the time to live has run out now.
    pub fn is_expired(&self) -> (r: bool)
        ensures
            self.ttl is None ==> !r,
            r ==> exists|now: i64| expired(self.timestamp_millis, self.ttl, now),
    {
        let now = utc_now_millis();
        self.is_expired_at(now)
    }
}

/// A message: a header and a body.
#[derive(Debug, Clone)]
pub struct Message<T> {
    pub header: MessageHeader,
    pub body: T,
}

impl<T> Message<T> {
    /// A message of type `message_type` made now.
    pub fn new(message_type: &str, body: T) -> (r: Self)
        ensures
            r.header.message_type@ == message_type@,
            r.header.priority == Priority::Normal,
            r.header.ttl is None,
            r.body == body,
    {
        Message { header: MessageHeader::new(message_type), body }
    }

    /// The identifier.
    pub fn id(&self) -> (r: &MessageId)
        ensures
            *r == self.header.id,
    {
        &self.header.id
    }

    /// The type.
    pub fn message_type(&self) -> (r: &str)
        ensures
            r@ == self.header.message_type@,
    {
        self.header.message_type.as_str()
    }

    /// When the message was made, in milliseconds since the Unix epoch.
    pub fn timestamp(&self) -> (r: i64)
        ensures
            r == self.header.timestamp_millis,
    {
        self.header.timestamp_millis
    }

    /// The same message with `header`.
    pub fn with_header(self, header: MessageHeader) -> (r: Self)
        ensures
            r.header == header,
            r.body == self.body,
    {
        Message { header, body: self.body }
    }

    /// The same header with the body turned by `f`.
    pub fn map<U, F: FnOnce(T) -> U>(self, f: F) -> (r: Message<U>)
        requires
            call_requires(f, (self.body,)),
        ensures
            r.header == self.header,
            call_ensures(f, (self.body,), r.body),
    {
        let body = f(self.body);
        Message { header: self.header, body }
    }
}

/// A text body.
#[derive(Debug, Clone, PartialEq, Eq)]
pub struct TextBody {
    pub content: String,
    /// Such as `text/plain` or `text/markdown`.
    pub content_type: String,
}

impl TextBody {
    /// Plain text.
    pub fn plain(content: &str) -> (r: Self)
        ensures
            r.content@ == content@,
            r.content_type@ == "text/plain"@,
    {
        TextBody { content: to_owned_string(content), content_type: to_owned_string("text/plain") }
    }

    /// Markdown.
    pub fn markdown(content: &str) -> (r: Self)
        ensures
            r.content@ == content@,
            r.content_type@ == "text/markdown"@,
    {
        TextBody { content: to_owned_string(content), content_type: to_owned_string("text/markdown") }
    }
}

/// A JSON body.
#[derive(Debug)]
pub struct JsonBody {
    pub data: serde_json::Value,
}

/// `serde_json::Value::get` with a string key: the member `key` of an
/// object. Nothing is stated of the result: a JSON value is not inspected
/// by the library.
#[verifier::external_body]
fn json_member<'a>(v: &'a serde_json::Value, key: &str) -> Option<&'a serde_json::Value> {
    v.get(key)
}

impl JsonBody {
    /// A body holding `data`.
    pub fn from_value(data: serde_json::Value) -> (r: Self)
        ensures
            r.data == data,
    {
        JsonBody { data }
    }

    /// The member `key` of the data.
    pub fn get(&self, key: &str) -> Option<&serde_json::Value> {
        json_member(&self.data, key)
    }
}

/// A binary body; it travels as base64 text.
#[derive(Debug, Clone, PartialEq, Eq)]
pub struct BinaryBody {
    pub data: Vec<u8>,
    pub content_type: String,
}

impl BinaryBody {
    /// A body holding `data` of type `content_type`.
    pub fn new(data: Vec<u8>, content_type: &str) -> (r: Self)
        ensures
            r.data@ == data@,
            r.content_type@ == content_type@,
    {
        BinaryBody { data, content_type: to_owned_string(content_type) }
    }

    /// The data as base64 text.
    pub fn encoded_data(&self) -> (r: String)
        ensures
            r@ == base64_text(self.data@),
    {
        base64_encode(self.data.as_slice())
    }

    /// A body holding the bytes of base64 text `encoded`.
    pub fn from_encoded(encoded: &str, content_type: &str) -> (r: Result<Self, MessageError>)
        ensures
            match decode_bytes(without_padding(encoded.spec_bytes())) {
                Some(d) => r matches Ok(b) && b.data@ == d && b.content_type@ == content_type@,
                None => r matches Err(MessageError::Serialization(m)) && m@ == "Invalid base64"@,
            },
    {
        match base64_decode(encoded) {
            Ok(data) => Ok(BinaryBody::new(data, content_type)),
            Err(m) => Err(MessageError::Serialization(m)),
        }
    }
}

/// Builds a message step by step.
pub struct MessageBuilder<T> {
    header: MessageHeader,
    body: Option<T>,
}

impl<T> MessageBuilder<T> {
    /// The header built so far.
    pub closed spec fn header_view(&self) -> MessageHeader {
        self.header
    }

    /// The body, once given.
    pub closed spec fn body_view(&self) -> Option<T> {
        self.body
    }

    /// A builder for a message of type `message_type`.
    pub fn new(message_type: &str) -> (r: Self)
        ensures
            r.header_view().message_type@ == message_type@,
            r.header_view().priority == Priority::Normal,
            r.header_view().ttl is None,
            r.header_view().headers@.len() == 0,
            r.body_view() is None,
    {
        MessageBuilder { header: MessageHeader::new(message_type), body: None }
    }

    /// Set the body.
    pub fn body(self, body: T) -> (r: Self)
        ensures
            r.body_view() == Some(body),
            r.header_view() == self.header_view(),
    {
        MessageBuilder { header: self.header, body: Some(body) }
    }

    /// Set the priority.
    pub fn priority(self, priority: Priority) -> (r: Self)
        ensures
            r.header_view().priority == priority,
            r.header_view().ttl == self.header_view().ttl,
            r.header_view().headers == self.header_view().headers,
            r.body_view() == self.body_view(),
    {
        MessageBuilder { header: self.header.with_priority(priority), body: self.body }
    }

    /// Set the correlation.
    pub fn correlation(self, id: MessageId) -> (r: Self)
        ensures
            r.header_view().correlation_id == Some(id),
            r.header_view().priority == self.header_view().priority,
            r.header_view().ttl == self.header_view().ttl,
            r.body_view() == self.body_view(),
    {
        MessageBuilder { header: self.header.with_correlation(id), body: self.body }
    }

    /// Set the reply-to address.
    pub fn reply_to(self, address: &str) -> (r: Self)
        ensures
            r.header_view().reply_to matches Some(a) && a@ == address@,
            r.header_view().priority == self.header_view().priority,
            r.header_view().ttl == self.header_view().ttl,
            r.body_view() == self.body_view(),
    {
        MessageBuilder { header: self.header.with_reply_to(address), body: self.body }
    }

    /// Set the time to live in seconds.
    pub fn ttl(self, ttl: u64) -> (r: Self)
        ensures
            r.header_view().ttl == Some(ttl),
            r.header_view().priority == self.header_view().priority,
            r.body_view() == self.body_view(),
    {
        MessageBuilder { header: self.header.with_ttl(ttl), body: self.body }
    }

    /// Set a custom header.
    pub fn header(self, key: &str, value: &str) -> (r: Self)
        requires
            distinct_keys(param_views(self.header_view().headers@)),
        ensures
            distinct_keys(param_views(r.header_view().headers@)),
            param_views(r.header_view().headers@) == put_param(
                param_views(self.header_view().headers@),
                key@,
                value@,
            ),
            r.header_view().priority == self.header_view().priority,
            r.header_view().ttl == self.header_view().ttl,
            r.body_view() == self.body_view(),
    {
        MessageBuilder { header: self.header.with_header(key, value), body: self.body }
    }

    /// The message; `MissingField("body")` without a body.
    pub fn build(self) -> (r: Result<Message<T>, MessageError>)
        ensures
            match self.body_view() {
                Some(b) => r matches Ok(m) && m.header == self.header_view() && m.body == b,
                None => r matches Err(MessageError::MissingField(f)) && f@ == "body"@,
            },
    {
        match self.body {
            Some(body) => Ok(Message { header: self.header, body }),
            None => Err(MessageError::MissingField(to_owned_string("body"))),
        }
    }
}

} // verus!
