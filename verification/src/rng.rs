//! The injected source of randomness: a thread-local generator from the
//! `rand` crate, reached only through the two trusted functions below.

use vstd::prelude::*;

verus! {

/// `rand::rngs::ThreadRng` is opaque here; a value of it is only threaded
/// through to `draw_die`.
#[verifier::external_type_specification]
#[verifier::external_body]
pub struct ExThreadRng(rand::rngs::ThreadRng);

/// Relies on `rand::rng`: hands out the thread-local generator. Nothing is
/// assumed of its state.
#[verifier::external_body]
pub(crate) fn rng_new() -> rand::rngs::ThreadRng {
    rand::rng()
}

/// Relies on `rand::Rng::random_range` over `1..=sides`: returns a uniform
/// value of that closed range. Its one input-dependent panic, an empty
/// range, is ruled out by the precondition; the generator's periodic
/// reseed can still panic if the operating system's entropy source fails,
/// an environmental failure no argument can exclude. No more than
/// membership in the range is assumed, since the value drawn is random.
#[verifier::external_body]
pub(crate) fn draw_die(rng: &mut rand::rngs::ThreadRng, sides: i32) -> (r: i32)
    requires
        1 <= sides,
    ensures
        1 <= r <= sides,
{
    rand::Rng::random_range(rng, 1..=sides)
}

} // verus!
