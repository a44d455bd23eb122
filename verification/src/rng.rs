use vstd::prelude::*;
use rand::rngs::ThreadRng;

verus! {

/// The thread-local random number generator of `rand`.
#[verifier::external_type_specification]
#[verifier::external_body]
pub struct ExThreadRng(ThreadRng);

/// `RngCore::next_u32` of `rand`'s `ThreadRng`: any 32-bit number; nothing is
/// claimed of which one.
#[verifier::external_body]
pub(crate) fn next_u32(rng: &mut ThreadRng) -> u32 {
    rand::RngCore::next_u32(rng)
}

/// `RngCore::next_u64` of `rand`'s `ThreadRng`: any 64-bit number; nothing is
/// claimed of which one.
#[verifier::external_body]
pub(crate) fn next_u64(rng: &mut ThreadRng) -> u64 {
    rand::RngCore::next_u64(rng)
}

} // verus!
