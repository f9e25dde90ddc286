//! The source of randomness.

use vstd::prelude::*;

verus! {

/// Sixty-four bits from `rand`'s thread-local generator
/// (`rand::thread_rng()` followed by `RngCore::next_u64`). Nothing is claimed
/// of the value: every `u64` can come back.
#[verifier::external_body]
pub(crate) fn random_bits() -> u64 {
    rand::RngCore::next_u64(&mut rand::thread_rng())
}

} // verus!
