//! Identifiers drawn from the `uuid` crate: random ones, their text, and
//! their comparison. The library only draws and carries them.

use vstd::prelude::*;

verus! {

#[verifier::external_type_specification]
#[verifier::external_body]
pub struct ExUuid(uuid::Uuid);

/// `uuid::Uuid::new_v4`: a random identifier. Nothing is stated of it.
#[verifier::external_body]
pub(crate) fn new_uuid() -> uuid::Uuid {
    uuid::Uuid::new_v4()
}

/// The identifier `uuid::Uuid::parse_str` reads from `s`, if it reads one.
pub uninterp spec fn uuid_of_text(s: Seq<char>) -> Option<uuid::Uuid>;

/// `uuid::Uuid`'s `to_string`: the identifier in hyphenated form, 36
/// characters long, which `parse_str` reads back as the same identifier.
#[verifier::external_body]
pub(crate) fn uuid_text(id: &uuid::Uuid) -> (r: String)
    ensures
        r@.len() == 36,
        uuid_of_text(r@) == Some(*id),
{
    id.to_string()
}

/// `uuid::Uuid::parse_str`: the identifier `s` holds, if it holds one.
#[verifier::external_body]
pub(crate) fn parse_uuid(s: &str) -> (r: Option<uuid::Uuid>)
    ensures
        r == uuid_of_text(s@),
{
    match uuid::Uuid::parse_str(s) {
        Ok(id) => Some(id),
        Err(_) => None,
    }
}

/// `uuid::Uuid::simple` written out: the identifier as 32 lowercase
/// hexadecimal digits.
#[verifier::external_body]
pub(crate) fn uuid_simple_text(id: &uuid::Uuid) -> (r: String)
    ensures
        r@.len() == 32,
        forall|i: int| 0 <= i < 32 ==> crate::oauth::is_lower_hex(#[trigger] r@[i]),
{
    id.simple().to_string()
}

/// `uuid::Uuid::as_u64_pair`, its first half: the identifier's high 64
/// bits. Nothing is stated of the value.
#[verifier::external_body]
pub(crate) fn uuid_high_bits(id: &uuid::Uuid) -> u64 {
    id.as_u64_pair().0
}

/// Compares two identifiers with `uuid::Uuid`'s `==`, which compares their
/// bytes: the result is whether they are the same identifier.
#[verifier::external_body]
pub(crate) fn uuid_eq(a: &uuid::Uuid, b: &uuid::Uuid) -> (r: bool)
    ensures
        r == (*a == *b),
{
    *a == *b
}

/// A random identifier in hyphenated form, 36 characters long.
pub(crate) fn random_id_text() -> (r: String)
    ensures
        r@.len() == 36,
{
    uuid_text(&new_uuid())
}

} // verus!
