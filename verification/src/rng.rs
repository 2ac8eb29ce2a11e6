//! The machine's random source, backing the random-byte instruction.

use vstd::prelude::*;

verus! {

/// Relies on rand::random::<u8>: one uniformly random byte from the
/// thread-local generator. Nothing is promised of the value; callers state
/// what holds of every byte.
#[verifier::external_body]
pub(crate) fn random_byte() -> u8 {
    rand::random::<u8>()
}

} // verus!
