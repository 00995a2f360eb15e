use vstd::prelude::*;

verus! {

#[verifier::external_type_specification]
#[verifier::external_body]
pub struct ExThreadRng(rand::rngs::ThreadRng);

/// Relies on `rand::thread_rng`: a handle on the thread's lazily seeded generator.
pub assume_specification[ rand::thread_rng ]() -> rand::rngs::ThreadRng;

/// Relies on `rand::Rng::gen::<u64>` for `ThreadRng`: one uniformly drawn 64-bit word.
/// Nothing is known of its value.
#[verifier::external_body]
pub(crate) fn next_draw(rng: &mut rand::rngs::ThreadRng) -> u64 {
    rand::Rng::gen::<u64>(rng)
}

} // verus!
