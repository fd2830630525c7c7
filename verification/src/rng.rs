//! Deterministic pseudo-random number generation.
//!
//! The core draws randomness through the [`RngLike`] port so that the
//! embedding application can substitute its own source.  [`Seeded`] is the
//! xorshift64* generator the game ships with: the next state and the next
//! output are pure functions of the current 64-bit state, so two generators
//! built from the same seed produce bit-identical output sequences.

use vstd::prelude::*;
use vstd::wrapping::u64_specs;

verus! {

/// Port for random number generators.  Nothing is promised about the
/// values a generic implementation returns; every consumer in the core
/// states what holds of its own result whatever the generator hands back.
pub trait RngLike {
    fn next_u32(&mut self) -> u32;
}

/// One xorshift64* state transition: three xor-shifts by the fixed
/// constants 12, 25 and 27.
pub open spec fn xorshift_step(x: u64) -> u64 {
    let a = x ^ (x >> 12u64);
    let b = a ^ (a << 25u64);
    b ^ (b >> 27u64)
}

/// The 32-bit output drawn from state `x`: the high half of the stepped
/// state multiplied (wrapping) by the fixed odd constant.
pub open spec fn xorshift_out(x: u64) -> u32 {
    (u64_specs::wrapping_mul(xorshift_step(x), 0x2545F4914F6CDD1Du64) >> 32u64) as u32
}

/// The generator state after `n` draws from `seed`.
pub open spec fn rng_state_at(seed: u64, n: nat) -> u64
    decreases n,
{
    if n == 0 {
        seed
    } else {
        xorshift_step(rng_state_at(seed, (n - 1) as nat))
    }
}

/// The sequence of the first `n` outputs drawn from `seed`.
pub open spec fn rng_outputs(seed: u64, n: nat) -> Seq<u32> {
    Seq::new(n, |i: int| xorshift_out(rng_state_at(seed, i as nat)))
}

/// A deterministic random number generator using a seeded algorithm.
#[derive(Clone, Copy)]
pub struct Seeded(pub u64);

impl Seeded {
    pub fn new(seed: u64) -> (r: Self)
        ensures
            r.0 == seed,
    {
        Seeded(seed)
    }

    /// Advances the internal state by one xorshift64* step and returns the
    /// 32-bit output of the old state.  Both are pure functions of the old
    /// state, which makes the whole output stream a function of the seed.
    pub fn next_u32(&mut self) -> (r: u32)
        ensures
            final(self).0 == xorshift_step(old(self).0),
            r == xorshift_out(old(self).0),
    {
        let mut x: u64 = self.0;
        x = x ^ (x >> 12u64);
        x = x ^ (x << 25u64);
        x = x ^ (x >> 27u64);
        self.0 = x;
        let m: u64 = x.wrapping_mul(0x2545F4914F6CDD1Du64);
        let hi: u64 = m >> 32u64;
        proof {
            assert(m >> 32u64 <= 0xFFFF_FFFFu64) by (bit_vector);
        }
        hi as u32
    }
}

impl RngLike for Seeded {
    fn next_u32(&mut self) -> u32 {
        Seeded::next_u32(self)
    }
}

/// Determinism law: the output stream is a function of the seed alone, so
/// two generators constructed with the same seed agree on every draw.
pub proof fn lemma_same_seed_same_outputs(seed1: u64, seed2: u64, n: nat)
    requires
        seed1 == seed2,
    ensures
        rng_outputs(seed1, n) == rng_outputs(seed2, n),
{
}

} // verus!
