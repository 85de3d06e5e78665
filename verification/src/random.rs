//! The random number generator, which is `rltk`'s.

use vstd::prelude::*;
use rltk::RandomNumberGenerator;

verus! {

/// `rltk::RandomNumberGenerator`, of which nothing is known but what the
/// functions below say of the numbers it gives.
#[verifier::external_type_specification]
#[verifier::external_body]
pub struct ExRandomNumberGenerator(rltk::RandomNumberGenerator);

/// `RandomNumberGenerator::new`: a generator seeded from the machine's entropy.
/// Nothing is known of the numbers it will give.
#[verifier::external_body]
pub(crate) fn fresh() -> RandomNumberGenerator {
    RandomNumberGenerator::new()
}

/// `RandomNumberGenerator::range` on `i32`: some number from `min` up to, but
/// not including, `max`. The outside function panics on an empty range.
#[verifier::external_body]
pub(crate) fn range(rng: &mut RandomNumberGenerator, min: i32, max: i32) -> (r: i32)
    requires
        min < max,
    ensures
        min <= r < max,
{
    rng.range(min, max)
}

/// `RandomNumberGenerator::roll_dice`: the sum of `n` throws of a die with the
/// faces 1 to `die_type`. The outside function panics on a die without faces
/// and where the sum leaves `i32`.
#[verifier::external_body]
pub(crate) fn roll_dice(rng: &mut RandomNumberGenerator, n: i32, die_type: i32) -> (r: i32)
    requires
        0 <= n,
        1 <= die_type < i32::MAX,
        n * die_type <= i32::MAX,
    ensures
        n <= r <= n * die_type,
{
    rng.roll_dice(n, die_type)
}

} // verus!
