//! The entropy source for zero-knowledge blinding: a seeded random-number
//! generator from which fresh field elements are drawn.  Nothing is promised
//! of a drawn value beyond membership in the field; every consumer of a draw
//! is verified for every possible outcome.

use vstd::prelude::*;

use crate::field::fr_random;
use crate::field::Fp;
use rand::SeedableRng;

verus! {

#[verifier::external_type_specification]
#[verifier::external_body]
pub struct ExStdRng(rand::rngs::StdRng);

/// A deterministic entropy source: the same seed yields the same sequence
/// of draws, which makes blinded runs reproducible for test vectors.
pub struct Entropy {
    rng: rand::rngs::StdRng,
}

impl Entropy {
    /// An entropy source seeded with the given value.
    pub fn from_seed(seed: u64) -> Entropy {
        Entropy { rng: rng_from_seed(seed) }
    }

    /// Draws one field element.
    pub fn draw(&mut self) -> Fp {
        fr_random(&mut self.rng)
    }
}

/// Relies on `rand::rngs::StdRng::seed_from_u64` to build a generator whose
/// stream is a function of the seed alone.
#[verifier::external_body]
fn rng_from_seed(seed: u64) -> rand::rngs::StdRng {
    rand::rngs::StdRng::seed_from_u64(seed)
}

} // verus!
