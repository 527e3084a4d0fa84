//! Seeds of the noise generators behind the vector field sources.

use vstd::prelude::*;

verus! {

/// The distance between the seeds of the two generators of a cellular
/// noise field.
pub const WORLEY_SEED_STRIDE: u32 = 7919;

/// The seed of the second generator of a cellular noise field: the first
/// seed moved by [`WORLEY_SEED_STRIDE`], wrapping around at the end of the
/// 32-bit range.
pub open spec fn second_seed(seed: u32) -> u32 {
    if seed + WORLEY_SEED_STRIDE > u32::MAX {
        (seed + WORLEY_SEED_STRIDE - u32::MAX - 1) as u32
    } else {
        (seed + WORLEY_SEED_STRIDE) as u32
    }
}

/// The seeds of the two generators of a cellular noise field.
pub fn worley_seeds(seed: u32) -> (seeds: (u32, u32))
    ensures
        seeds.0 == seed,
        seeds.1 == second_seed(seed),
        seeds.1 != seed,
{
    (seed, seed.wrapping_add(WORLEY_SEED_STRIDE))
}

} // verus!
