use vstd::prelude::*;

verus! {

/// The thread-local random number generator of the rand crate, used by the
/// random-byte instruction. Opaque to the core: nothing is known of a value
/// of it beyond what the wrappers below state.
#[verifier::external_type_specification]
#[verifier::external_body]
pub struct ExThreadRng(rand::rngs::ThreadRng);

/// Relies on rand::rng for a handle to the thread-local generator. Nothing is
/// promised of it; the call panics only if the operating system's randomness
/// source fails at first seeding.
#[verifier::external_body]
pub(crate) fn fresh_rng() -> rand::rngs::ThreadRng {
    rand::rng()
}

/// Relies on rand::Rng::next_u32 (infallible on ThreadRng): a random value on
/// each call. Nothing is promised of the result; callers state what holds of
/// their own state whatever comes back.
#[verifier::external_body]
pub(crate) fn next_random(rng: &mut rand::rngs::ThreadRng) -> u32 {
    rand::Rng::next_u32(rng)
}

} // verus!
