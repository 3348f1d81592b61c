//! Draws from a seeded random number generator.
//!
//! A draw is a function of the generator's state: it gives a value and the state behind it.
//! The names below stand for these functions, as the version of `rand` that the library is
//! built with computes them. Nothing is said of how values are spread.

use rand::rngs::StdRng;
use rand::{Rng, SeedableRng};
use vstd::prelude::*;

verus! {

/// `rand::rngs::StdRng`. Opaque: only its state as a whole is spoken of.
#[verifier::external_type_specification]
#[verifier::external_body]
pub struct ExStdRng(rand::rngs::StdRng);

/// The state of a generator, written as one number: its key, its block counter and its place
/// within the block.
pub uninterp spec fn generator_state(rng: StdRng) -> nat;

/// The state of a generator made from a seed.
pub uninterp spec fn seeded(seed: u64) -> nat;

/// What a draw from `low` up to but without `high` gives, and the state behind it.
pub uninterp spec fn drawn_u32(state: nat, low: u32, high: u32) -> (u32, nat);

/// What a draw from `low` up to but without `high` gives, and the state behind it.
pub uninterp spec fn drawn_usize(state: nat, low: usize, high: usize) -> (usize, nat);

/// What a draw from `low` up to but without `high` gives, and the state behind it.
pub uninterp spec fn drawn_i32(state: nat, low: i32, high: i32) -> (i32, nat);

/// What a draw that is true `numerator` times out of `denominator` gives, and the state behind
/// it.
pub uninterp spec fn drawn_ratio(state: nat, numerator: u32, denominator: u32) -> (bool, nat);

/// What a draw of any byte gives, and the state behind it.
pub uninterp spec fn drawn_u8(state: nat) -> (u8, nat);

/// `rand::SeedableRng::seed_from_u64` on `StdRng`: the state depends on the seed alone.
#[verifier::external_body]
pub(crate) fn seed_rng(seed: u64) -> (rng: StdRng)
    ensures
        generator_state(rng) == seeded(seed),
{
    StdRng::seed_from_u64(seed)
}

/// `rand::Rng::random_range` on `u32`, which panics on an empty range: a value within the
/// range that, as the state behind it, depends on the state before and on the range alone.
#[verifier::external_body]
pub(crate) fn draw_u32(rng: &mut StdRng, low: u32, high: u32) -> (value: u32)
    requires
        low < high,
    ensures
        low <= value < high,
        (value, generator_state(*final(rng))) == drawn_u32(generator_state(*old(rng)), low, high),
{
    rng.random_range(low..high)
}

/// `rand::Rng::random_range` on `usize`, which panics on an empty range: a value within the
/// range that, as the state behind it, depends on the state before and on the range alone.
#[verifier::external_body]
pub(crate) fn draw_usize(rng: &mut StdRng, low: usize, high: usize) -> (value: usize)
    requires
        low < high,
    ensures
        low <= value < high,
        (value, generator_state(*final(rng))) == drawn_usize(
            generator_state(*old(rng)),
            low,
            high,
        ),
{
    rng.random_range(low..high)
}

/// `rand::Rng::random_range` on `i32`, which panics on an empty range: a value within the
/// range that, as the state behind it, depends on the state before and on the range alone.
#[verifier::external_body]
pub(crate) fn draw_i32(rng: &mut StdRng, low: i32, high: i32) -> (value: i32)
    requires
        low < high,
    ensures
        low <= value < high,
        (value, generator_state(*final(rng))) == drawn_i32(generator_state(*old(rng)), low, high),
{
    rng.random_range(low..high)
}

/// `rand::Rng::random_ratio`, which panics where the ratio is no probability: never true at
/// none out of some, always true at all out of some; the answer and the state behind it depend
/// on the state before and on the ratio alone. The draw is the one that `random_bool` makes
/// with the quotient as its probability.
#[verifier::external_body]
pub(crate) fn draw_ratio(rng: &mut StdRng, numerator: u32, denominator: u32) -> (hit: bool)
    requires
        numerator <= denominator,
        denominator > 0,
    ensures
        numerator == 0 ==> !hit,
        numerator == denominator ==> hit,
        (hit, generator_state(*final(rng))) == drawn_ratio(
            generator_state(*old(rng)),
            numerator,
            denominator,
        ),
{
    rng.random_ratio(numerator, denominator)
}

/// `rand::Rng::random` on `u8`: the byte and the state behind it depend on the state before
/// alone.
#[verifier::external_body]
pub(crate) fn draw_u8(rng: &mut StdRng) -> (value: u8)
    ensures
        (value, generator_state(*final(rng))) == drawn_u8(generator_state(*old(rng))),
{
    rng.random::<u8>()
}

} // verus!
