//! Outside types that the library carries through without reading them.

use vstd::prelude::*;

verus! {

/// `serde_json::Value`, an arbitrary JSON value.
#[verifier::external_type_specification]
#[verifier::external_body]
pub struct ExJsonValue(serde_json::Value);

/// `uuid::Uuid::new_v4`: a random version-4 UUID, as its 128-bit value.
/// Only its version (4) and variant (RFC 4122) bits are fixed.
#[verifier::external_body]
pub(crate) fn random_uuid() -> (r: u128)
    ensures
        r & 0xF000_0000_0000_0000_0000 == 0x4000_0000_0000_0000_0000,
        r & 0xC000_0000_0000_0000 == 0x8000_0000_0000_0000,
{
    uuid::Uuid::new_v4().as_u128()
}

/// `Clone::clone` on an optional JSON value: `serde_json::Value` derives
/// `Clone`, so the copy is the same value.
#[verifier::external_body]
pub(crate) fn copy_json(v: &Option<serde_json::Value>) -> (r: Option<serde_json::Value>)
    ensures
        r == *v,
{
    v.clone()
}

} // verus!
