//! The interpreter's one source of chance.
use vstd::prelude::*;

verus! {

/// Draws a byte from `rand::random::<u8>()`, which samples the thread-local
/// generator (`thread_rng().gen()`). The result is left free: every byte is a
/// possible outcome, so nothing is stated of it. The call panics if the
/// operating system's random source cannot seed the generator, which no input
/// of ours controls.
#[verifier::external_body]
pub(crate) fn random_byte() -> (r: u8) {
    rand::random::<u8>()
}

} // verus!
