//! The random number generators that real dice rolls draw from.
use rand::rngs::{StdRng, ThreadRng};
use rand::{Rng, SeedableRng};
use vstd::prelude::*;

verus! {

#[verifier::external_type_specification]
#[verifier::external_body]
pub struct ExThreadRng(ThreadRng);

#[verifier::external_type_specification]
#[verifier::external_body]
pub struct ExStdRng(StdRng);

/// Calls `rand::thread_rng`, the thread-local generator seeded by the
/// operating system. Nothing is claimed of the generator. It panics when the
/// operating system cannot provide a seed, which no precondition can rule
/// out.
#[verifier::external_body]
pub(crate) fn new_thread_rng() -> ThreadRng {
    rand::thread_rng()
}

/// Calls `Rng::gen_range` on the inclusive range `1..=sides`. The contract
/// claims only that the result lies in that range, as rand documents.
#[verifier::external_body]
pub(crate) fn gen_die_face(rng: &mut ThreadRng, sides: i32) -> (r: i32)
    requires
        1 <= sides,
    ensures
        1 <= r <= sides,
{
    rng.gen_range(1..=sides)
}

/// Calls `SeedableRng::from_entropy` for a `StdRng`, seeded from the
/// operating system. Nothing is claimed of the generator. It panics when the
/// operating system cannot provide a seed, which no precondition can rule
/// out.
#[verifier::external_body]
pub(crate) fn new_entropy_rng() -> StdRng {
    StdRng::from_entropy()
}

/// Calls `Rng::gen_range` on the inclusive range `0..=9`. The contract claims
/// only that the result lies in that range, as rand documents.
#[verifier::external_body]
pub(crate) fn gen_decimal_digit(rng: &mut StdRng) -> (r: u32)
    ensures
        r <= 9,
{
    rng.gen_range(0..=9)
}

}
