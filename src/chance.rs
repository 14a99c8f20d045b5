use rand::Rng;
use rand::SeedableRng;
use vstd::prelude::*;

verus! {

/// The value that a generator seeded with `seed` yields first when asked for a
/// number below `bound`.
pub uninterp spec fn seeded_draw(seed: u64, bound: u32) -> u32;

/// Relies on rand's `StdRng::seed_from_u64` and one `Rng::gen_range(0..bound)` on it:
/// the generator is a fixed algorithm of its seed, so the value depends on `seed`
/// and `bound` alone, and `gen_range` stays below its (non-empty) upper end.
#[verifier::external_body]
pub(crate) fn draw_seeded(seed: u64, bound: u32) -> (r: u32)
    requires
        bound > 0,
    ensures
        r == seeded_draw(seed, bound),
        r < bound,
{
    let mut rng = rand::rngs::StdRng::seed_from_u64(seed);
    rng.gen_range(0..bound)
}

/// Relies on rand's `thread_rng()` and `Rng::gen_range(0..bound)`: some value below
/// `bound`, drawn from an unseeded source (cosmetic and drop choices only).
#[verifier::external_body]
pub(crate) fn random_below(bound: u32) -> (r: u32)
    requires
        bound > 0,
    ensures
        r < bound,
{
    rand::thread_rng().gen_range(0..bound)
}

} // verus!
