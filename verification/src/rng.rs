//! Randomness for grid seeding and tie-breaking.

use vstd::prelude::*;

verus! {

/// Relies on `rand::random`: one draw from the thread-local generator.
/// Nothing is promised of the result; callers must hold for every value.
#[verifier::external_body]
pub(crate) fn random_u32() -> u32 {
    rand::random::<u32>()
}

} // verus!
