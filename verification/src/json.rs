//! JSON values, as far as the library copies them: `serde_json` owns their
//! contents, the library only carries them along.

use vstd::prelude::*;

verus! {

/// `Clone` of a `serde_json::Value`: an equal value.
#[verifier::external_body]
pub(crate) fn json_clone(v: &serde_json::Value) -> (r: serde_json::Value)
    ensures
        r == *v,
{
    v.clone()
}

/// `serde_json::Value::Null`. Nothing is stated of it: JSON values are
/// carried, not inspected.
#[verifier::external_body]
pub(crate) fn json_null() -> serde_json::Value {
    serde_json::Value::Null
}

} // verus!
