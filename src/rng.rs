use rand::Rng;
use vstd::prelude::*;

verus! {

/// Relies on `rand::thread_rng().gen_range(0..bound)`: a value below `bound`
/// (the call panics on an empty range, hence `bound > 0`).
#[verifier::external_body]
pub(crate) fn random_below(bound: usize) -> (r: usize)
    requires
        bound > 0,
    ensures
        r < bound,
{
    rand::thread_rng().gen_range(0..bound)
}

/// Relies on `uuid::Uuid::new_v4`: a random version-4 UUID, handed out as its
/// 128-bit value. Nothing is known of the value.
#[verifier::external_body]
pub(crate) fn random_uuid_value() -> (r: u128) {
    uuid::Uuid::new_v4().as_u128()
}

} // verus!
