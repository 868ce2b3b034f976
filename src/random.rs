use vstd::prelude::*;
use rand::{Rng, SeedableRng};
use rand::rngs::StdRng;
use bracket_random::prelude::RandomNumberGenerator;

verus! {

#[verifier::external_type_specification]
#[verifier::external_body]
pub struct ExStdRng(StdRng);

#[verifier::external_type_specification]
#[verifier::external_body]
pub struct ExRandomNumberGenerator(RandomNumberGenerator);

/// Relies on rand's `SeedableRng::seed_from_u64`: a generator whose stream
/// depends on `seed` alone.
#[verifier::external_body]
pub(crate) fn seeded_rng(seed: u64) -> StdRng {
    StdRng::seed_from_u64(seed)
}

/// Relies on rand's `Rng::random_range` over `lo..=hi`: a value of the
/// inclusive range (it panics only on an empty range).
#[verifier::external_body]
pub(crate) fn random_u32_between(rng: &mut StdRng, lo: u32, hi: u32) -> (r: u32)
    requires
        lo <= hi,
    ensures
        lo <= r <= hi,
{
    rng.random_range(lo..=hi)
}

/// Relies on rand's `Rng::random_range` over `lo..=hi`: a value of the
/// inclusive range (it panics only on an empty range).
#[verifier::external_body]
pub(crate) fn random_i32_between(rng: &mut StdRng, lo: i32, hi: i32) -> (r: i32)
    requires
        lo <= hi,
    ensures
        lo <= r <= hi,
{
    rng.random_range(lo..=hi)
}

/// Relies on rand's `Rng::random::<bool>`: a fair coin.
#[verifier::external_body]
pub(crate) fn random_coin(rng: &mut StdRng) -> bool {
    rng.random::<bool>()
}

/// Relies on bracket-random's `RandomNumberGenerator::roll_dice`: the sum of
/// `n` draws, each from `1..die + 1`.
#[verifier::external_body]
pub(crate) fn roll_dice(rng: &mut RandomNumberGenerator, n: i32, die: i32) -> (r: i32)
    requires
        0 <= n,
        1 <= die < i32::MAX,
        n * die <= i32::MAX,
    ensures
        n <= r <= n * die,
{
    rng.roll_dice(n, die)
}

} // verus!
