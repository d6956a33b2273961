//! Trusted interface to the host's source of randomness, used by the one
//! opcode that masks a random byte with an immediate.

use vstd::prelude::*;

verus! {

/// Relies on `rand::thread_rng` and `rand::Rng::gen`: one random byte.
/// Nothing is promised of the value; callers must hold for every byte that
/// could come back.
#[verifier::external_body]
pub(crate) fn random_byte() -> u8 {
    rand::Rng::gen(&mut rand::thread_rng())
}

} // verus!
