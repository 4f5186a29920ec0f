//! Random numbers for terrain decoration and mob behaviour, drawn from the
//! rand crate's standard generator behind trusted declarations.
//!
//! Nothing is assumed of the values beyond their documented ranges: every
//! caller is verified for every outcome.

use vstd::prelude::*;

verus! {

#[verifier::external_type_specification]
#[verifier::external_body]
pub struct ExStdRng(rand::rngs::StdRng);

/// Relies on rand's `SeedableRng::seed_from_u64`: a generator built from a
/// seed. Nothing is assumed of its stream.
#[verifier::external_body]
pub fn rng_from_seed(seed: u64) -> (rng: rand::rngs::StdRng)
    ensures
        true,
{
    <rand::rngs::StdRng as rand::SeedableRng>::seed_from_u64(seed)
}

/// Relies on rand's `Rng::next_u32`: the next word of the stream; any value
/// may come back.
#[verifier::external_body]
pub fn rng_next_u32(rng: &mut rand::rngs::StdRng) -> (r: u32)
    ensures
        true,
{
    rand::Rng::next_u32(rng)
}

/// Relies on rand's `RngExt::random_range`: a value sampled from a
/// non-empty half-open range lands inside it.
#[verifier::external_body]
pub fn rng_range_u32(rng: &mut rand::rngs::StdRng, lo: u32, hi: u32) -> (r: u32)
    requires
        lo < hi,
    ensures
        lo <= r < hi,
{
    rand::RngExt::random_range(rng, lo..hi)
}

/// Relies on rand's `RngExt::random_range`: a value sampled from a
/// non-empty half-open range lands inside it.
#[verifier::external_body]
pub fn rng_range_i32(rng: &mut rand::rngs::StdRng, lo: i32, hi: i32) -> (r: i32)
    requires
        lo < hi,
    ensures
        lo <= r < hi,
{
    rand::RngExt::random_range(rng, lo..hi)
}

/// A draw in millionths of certainty: strictly below one million.
pub fn rng_unit_ppm(rng: &mut rand::rngs::StdRng) -> (r: u32)
    ensures
        r < 1_000_000,
{
    rng_range_u32(rng, 0, 1_000_000)
}

/// A biased coin: true with probability `p_ppm` millionths.
pub fn rng_chance_ppm(rng: &mut rand::rngs::StdRng, p_ppm: u32) -> (r: bool)
    ensures
        p_ppm == 0 ==> !r,
        p_ppm >= 1_000_000 ==> r,
{
    rng_unit_ppm(rng) < p_ppm
}

} // verus!
