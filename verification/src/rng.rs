use vstd::prelude::*;

verus! {

/// Relies on rand::random::<u8>: one byte from the thread-local
/// generator, uniform over the full inclusive byte range. Nothing can
/// be promised of a random value, so this has no contract: every
/// caller must hold for every byte that can come back.
#[verifier::external_body]
pub(crate) fn random_byte() -> u8 {
    rand::random::<u8>()
}

} // verus!
