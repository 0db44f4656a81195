//! The random stream of a run.
//!
//! The generator is `rand`'s `StdRng`. Nothing is claimed of the numbers
//! it yields beyond their range; every decision that consumes a draw is
//! a verified function of the drawn value.
use vstd::prelude::*;
use rand::Rng;
use rand::rngs::OsRng;
use rand::rngs::StdRng;
use rand::SeedableRng;
use crate::fixed::add_spec;
use crate::fixed::fx_mul;
use crate::fixed::mul_spec;
use crate::fixed::sat_add;
use crate::fixed::sat_sub;
use crate::fixed::SCALE;
use crate::fixed::sub_spec;

verus! {

/// `rand::rngs::StdRng`, carried through as an opaque value.
#[verifier::external_type_specification]
#[verifier::external_body]
pub struct ExStdRng(StdRng);

/// `SeedableRng::seed_from_u64` for `StdRng`: a generator whose stream is
/// fixed by the seed. Nothing is claimed of the generator.
#[verifier::external_body]
pub(crate) fn seeded(seed: u64) -> StdRng {
    StdRng::seed_from_u64(seed)
}

/// `SeedableRng::from_rng` for `StdRng`, fed by `OsRng`: a generator
/// seeded by the operating system, or `None` when the system yields no
/// entropy. Nothing is claimed of the result.
#[verifier::external_body]
pub(crate) fn from_system() -> Option<StdRng> {
    StdRng::from_rng(OsRng).ok()
}

/// `Rng::gen_range` on the inclusive range `low..=high`: the draw lies in
/// the range. The call panics on an empty range, which `requires` excludes.
#[verifier::external_body]
pub(crate) fn between(rng: &mut StdRng, low: i64, high: i64) -> (r: i64)
    requires
        low <= high,
    ensures
        low <= r <= high,
{
    rng.gen_range(low..=high)
}

/// Number of uniform draws that make up one noise sample.
pub const NOISE_DRAWS: usize = 12;

/// A generator for the given seed, or one seeded by the operating system
/// when there is no seed (seed zero where the system yields no entropy).
pub fn new_rng(seed: Option<u64>) -> StdRng {
    match seed {
        Some(s) => seeded(s),
        None => match from_system() {
            Some(rng) => rng,
            None => seeded(0),
        },
    }
}

/// A uniform draw from `[0, 1)` in millionths.
pub fn draw_unit(rng: &mut StdRng) -> (r: i64)
    ensures
        0 <= r < SCALE,
{
    between(rng, 0, SCALE - 1)
}

/// A uniform draw from `0..bound`.
pub fn draw_below(rng: &mut StdRng, bound: u32) -> (r: u32)
    requires
        bound > 0,
    ensures
        r < bound,
{
    between(rng, 0, (bound - 1) as i64) as u32
}

/// A fair coin.
pub fn draw_coin(rng: &mut StdRng) -> bool {
    between(rng, 0, 1) == 0
}

/// The noise factor that a sum of `NOISE_DRAWS` unit draws stands for:
/// one plus `spread` times the distance of the sum from its mean. The
/// sum of twelve unit draws has mean six and standard deviation one.
pub open spec fn noise_spec(sum: int, spread: int) -> int {
    add_spec(SCALE as int, mul_spec(spread, sub_spec(sum, 6 * SCALE)))
}

/// The noise factor for a sum of unit draws.
pub fn noise_from_sum(sum: i64, spread: i64) -> (r: i64)
    ensures
        r == noise_spec(sum as int, spread as int),
{
    sat_add(SCALE, fx_mul(spread, sat_sub(sum, 6 * SCALE)))
}

/// A bell-shaped noise factor around one with standard deviation `spread`.
pub fn draw_noise(rng: &mut StdRng, spread: i64) -> (r: i64)
    ensures
        exists|sum: int| 0 <= sum <= 11_999_988 && r == noise_spec(sum, spread as int),
{
    let mut sum: i64 = 0;
    let mut k: usize = 0;
    while k < NOISE_DRAWS
        invariant
            k <= NOISE_DRAWS,
            0 <= sum <= k * 999_999,
        decreases NOISE_DRAWS - k,
    {
        let u: i64 = draw_unit(rng);
        sum = sum + u;
        k += 1;
    }
    noise_from_sum(sum, spread)
}

} // verus!
