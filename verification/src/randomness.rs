//! The simulation's source of randomness: a seedable generator from the
//! `rand` crate, reached through a handful of trusted wrappers. Every draw
//! the simulation makes goes through [`draw_below`], whose contract promises
//! only a bound; the verified logic holds for every value the generator
//! returns.

use vstd::prelude::*;

verus! {

/// The generator the simulation carries. Declared so that it can stand in
/// a field; Verus sees nothing of its inside.
#[verifier::external_type_specification]
#[verifier::external_body]
pub struct ExStdRng(rand::rngs::StdRng);

/// Relies on rand's `SeedableRng::from_entropy`: a generator freshly seeded
/// from the operating system's entropy source. Aborts the process if that
/// source fails, which no input can provoke.
#[verifier::external_body]
pub fn rng_from_entropy() -> rand::rngs::StdRng {
    rand::SeedableRng::from_entropy()
}

/// Relies on rand's `SeedableRng::seed_from_u64`: a generator whose whole
/// stream of draws is determined by the seed, which makes runs
/// reproducible.
#[verifier::external_body]
pub fn rng_from_seed(seed: u64) -> rand::rngs::StdRng {
    rand::SeedableRng::seed_from_u64(seed)
}

/// Relies on rand's `Rng::gen_range` on the range `0..bound`: the draw lies
/// in that range, and the call panics only on an empty range, which the
/// precondition rules out. Nothing more can be said of a random draw.
#[verifier::external_body]
pub fn draw_below(rng: &mut rand::rngs::StdRng, bound: usize) -> (r: usize)
    requires
        bound >= 1,
    ensures
        r < bound,
{
    rand::Rng::gen_range(rng, 0..bound)
}

} // verus!
