//! The generator behind the random start of the gain cycle.

use vstd::prelude::*;

use rand::{RngExt, SeedableRng};
use rand_pcg::Pcg32;

verus! {

/// Declares the generator type, `rand_pcg::Pcg32`. Nothing is known of its inside.
#[verifier::external_type_specification]
#[verifier::external_body]
pub struct ExPcg32(rand_pcg::Lcg64Xsh32);

/// `Clone` of `rand_pcg::Pcg32` is derived on its two state words: the copy is in
/// the same state.
pub assume_specification[ <rand_pcg::Lcg64Xsh32 as Clone>::clone ](
    generator: &rand_pcg::Lcg64Xsh32,
) -> (copy: rand_pcg::Lcg64Xsh32)
    ensures
        copy == *generator,
;

/// Seeds a generator with `SeedableRng::from_rng` from the thread's generator,
/// `rand::rng()`. The seed is a matter of chance, so nothing is said of the
/// generator. Where the operating system has no randomness to give, there is no
/// thread's generator, and `rand::rng()` panics.
#[verifier::external_body]
pub(crate) fn seeded_generator() -> (generator: Pcg32) {
    Pcg32::from_rng(&mut rand::rng())
}

/// Draws with `RngExt::random_range` from `0..bound`, which must not be empty. The
/// result lies in that range; which value it is depends on the generator's seed.
#[verifier::external_body]
pub(crate) fn draw_below(generator: &mut Pcg32, bound: u8) -> (drawn: u8)
    requires
        bound > 0,
    ensures
        drawn < bound,
{
    generator.random_range(0..bound)
}

} // verus!
