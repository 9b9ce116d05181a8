//! Random sources for steering, spawning and stencil choice.
//!
//! The simulation takes its randomness from an explicit, seedable
//! generator so that runs can be replayed bit for bit: the whole draw
//! sequence is a function of the seed. A process-entropy draw from the
//! `rand` crate is offered separately for callers that do not need
//! replay.

use vstd::prelude::*;

verus! {

/// The additive constant of the generator (the 64-bit golden ratio).
pub const RNG_GAMMA: u64 = 0x9E37_79B9_7F4A_7C15;

/// First mixing multiplier.
pub const RNG_MIX_A: u64 = 0xBF58_476D_1CE4_E5B9;

/// Second mixing multiplier.
pub const RNG_MIX_B: u64 = 0x94D0_49BB_1331_11EB;

/// The generator state after one step.
pub open spec fn rng_step(s: u64) -> u64 {
    s.wrapping_add(RNG_GAMMA)
}

/// The output mix of one state.
pub open spec fn rng_mix(z: u64) -> u64 {
    let a = (z ^ (z >> 30)).wrapping_mul(RNG_MIX_A);
    let b = (a ^ (a >> 27)).wrapping_mul(RNG_MIX_B);
    b ^ (b >> 31)
}

/// The draw produced by stepping from state `s`: the high half of the
/// mixed next state.
pub open spec fn rng_draw(s: u64) -> u32 {
    (rng_mix(rng_step(s)) >> 32) as u32
}

/// The generator state after `k` steps.
pub open spec fn rng_state_after(s: u64, k: nat) -> u64
    decreases k,
{
    if k == 0 {
        s
    } else {
        rng_step(rng_state_after(s, (k - 1) as nat))
    }
}

/// The `k`-th draw of the stream seeded with `s`.
pub open spec fn rng_draw_at(s: u64, k: nat) -> u32 {
    rng_draw(rng_state_after(s, k))
}

/// A seedable deterministic generator (a 64-bit add-and-mix design):
/// equal seeds give equal draw sequences, on every machine.
pub struct SimRng {
    state: u64,
}

impl View for SimRng {
    type V = u64;

    closed spec fn view(&self) -> u64 {
        self.state
    }
}

impl SimRng {
    /// Starts the stream at `seed`.
    pub fn seeded(seed: u64) -> (r: SimRng)
        ensures
            r@ == seed,
    {
        SimRng { state: seed }
    }

    /// Steps the generator once and returns the draw.
    pub fn next_draw(&mut self) -> (d: u32)
        ensures
            final(self)@ == rng_step(old(self)@),
            d == rng_draw(old(self)@),
    {
        self.state = self.state.wrapping_add(RNG_GAMMA);
        let z = self.state;
        let a = (z ^ (z >> 30)).wrapping_mul(RNG_MIX_A);
        let b = (a ^ (a >> 27)).wrapping_mul(RNG_MIX_B);
        let m = b ^ (b >> 31);
        #[verifier::truncate]
        let d = (m >> 32) as u32;
        d
    }
}

/// Relies on rand::random: a value drawn from the thread-local generator;
/// nothing can be promised of the value. The call can abort the process if
/// the operating system's entropy source is unavailable when the thread's
/// generator first initializes; no input of this library triggers that.
pub assume_specification<T>[ rand::random::<T> ]() -> (r: T)
    where
        rand::distributions::Standard: rand::distributions::Distribution<T>,
;

/// One 32-bit draw of process entropy, for callers that do not need
/// deterministic replay.
pub fn entropy_draw() -> u32 {
    rand::random::<u32>()
}

} // verus!
