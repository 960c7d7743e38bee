//! The scenario's random source: a seeded standard generator whose output
//! stream is modelled as a mathematical function of the seed and of the
//! number of values drawn so far, so that rendering can be proved
//! deterministic for a fixed seed.

use vstd::prelude::*;

verus! {

#[verifier::external_type_specification]
#[verifier::external_body]
pub struct ExStdRng(rand::rngs::StdRng);

pub uninterp spec fn rng_stream(seed: u64, pos: nat) -> u64;

/// A random source seeded once per scenario. The ghost fields record the
/// seed and how many values have been drawn; the value drawn at position
/// `pos` under seed `seed` is `rng_stream(seed, pos)`.
pub struct FuzzRng {
    inner: rand::rngs::StdRng,
    seed_g: Ghost<u64>,
    pos_g: Ghost<nat>,
}

impl FuzzRng {
    /// The seed this source was built from.
    pub closed spec fn seed(self) -> u64 {
        self.seed_g@
    }

    /// How many values have been drawn so far.
    pub closed spec fn pos(self) -> nat {
        self.pos_g@
    }

    /// Relies on rand's `StdRng` (the ChaCha12 cipher in the pinned rand
    /// version) via `SeedableRng::seed_from_u64`: a generator built from a
    /// given seed yields one fixed stream of values, the same in every
    /// process and on every machine.
    #[verifier::external_body]
    pub fn seed_from_u64(seed: u64) -> (r: FuzzRng)
        ensures
            r.seed() == seed,
            r.pos() == 0,
    {
        FuzzRng {
            inner: <rand::rngs::StdRng as rand::SeedableRng>::seed_from_u64(seed),
            seed_g: Ghost(seed),
            pos_g: Ghost(0),
        }
    }

    /// Relies on rand's `RngCore::next_u64` for `StdRng`: drawing advances
    /// the generator by one step of its seed-determined stream.
    #[verifier::external_body]
    pub fn next_u64(&mut self) -> (r: u64)
        ensures
            final(self).seed() == old(self).seed(),
            final(self).pos() == old(self).pos() + 1,
            r == rng_stream(old(self).seed(), old(self).pos()),
    {
        rand::RngCore::next_u64(&mut self.inner)
    }
}

} // verus!
