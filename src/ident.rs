use vstd::prelude::*;

verus! {

/// Draws a new random 128-bit identifier.
///
/// Relies on `uuid::Uuid::new_v4` (random version-4 UUID) and `Uuid::as_u128`.
/// Nothing is promised of the value: uniqueness is checked by the callers.
#[verifier::external_body]
pub(crate) fn fresh_id() -> (r: u128) {
    uuid::Uuid::new_v4().as_u128()
}

} // verus!
