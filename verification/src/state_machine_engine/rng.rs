//! Inline, seedable PRNG for the `SetRandom` action: a standard PCG32
//! generator (XSH-RR output over a 64-bit LCG). Deterministic and
//! platform-independent: a seed always yields the same sequence.
use vstd::prelude::*;

verus! {

/// Seed used when the host never sets one.
pub const DEFAULT_RNG_SEED: u64 = 0x853c_49e6_748f_ea9b;

/// Fixed stream/sequence constant for the generator.
pub const DEFAULT_STREAM: u64 = 0xda3e_39cb_94b9_5bdb;

/// The LCG multiplier.
pub const MULTIPLIER: u64 = 6364136223846793005;

/// `x` rotated right by `r` bits (`u32::rotate_right`).
pub open spec fn rotr32(x: u32, r: u32) -> u32 {
    if r % 32 == 0 {
        x
    } else {
        (x >> (r % 32)) | (x << ((32 - r % 32) as u32))
    }
}

/// The LCG step: the state after `state`.
pub open spec fn pcg_step(state: u64, inc: u64) -> u64 {
    state.wrapping_mul(MULTIPLIER).wrapping_add(inc)
}

/// The 32-bit output drawn from the state `old` (XSH-RR).
pub open spec fn pcg_output(old: u64) -> u32 {
    rotr32((((old >> 18u64) ^ old) >> 27u64) as u32, (old >> 59u64) as u32)
}

/// The increment of the fixed stream (always odd).
pub open spec fn stream_increment() -> u64 {
    (DEFAULT_STREAM << 1u64) | 1u64
}

/// The `(state, increment)` pair of a generator seeded with `seed`: step,
/// add the seed, step again.
pub open spec fn seeded(seed: u64) -> (u64, u64) {
    let inc = stream_increment();
    (pcg_step(pcg_step(0, inc).wrapping_add(seed), inc), inc)
}

/// A PCG32 pseudo-random number generator.
#[derive(Clone, Debug)]
pub struct Pcg32 {
    state: u64,
    inc: u64,
}

impl View for Pcg32 {
    type V = (u64, u64);

    /// The generator's state and increment.
    closed spec fn view(&self) -> (u64, u64) {
        (self.state, self.inc)
    }
}

/// `x` rotated right by `r` bits.
fn rotate_right(x: u32, r: u32) -> (y: u32)
    ensures
        y == rotr32(x, r),
{
    let r = r % 32;
    if r == 0 {
        x
    } else {
        (x >> r) | (x << (32 - r))
    }
}

impl Pcg32 {
    /// Create a generator seeded with `seed`. The same seed always yields the
    /// same sequence.
    pub fn new(seed: u64) -> (rng: Self)
        ensures
            rng@ == seeded(seed),
    {
        let mut rng = Pcg32 { state: 0, inc: (DEFAULT_STREAM << 1) | 1 };
        rng.next_u32();
        rng.state = rng.state.wrapping_add(seed);
        rng.next_u32();
        rng
    }

    /// Advance the generator and return the next 32-bit output.
    pub fn next_u32(&mut self) -> (out: u32)
        ensures
            out == pcg_output(old(self)@.0),
            final(self)@ == (pcg_step(old(self)@.0, old(self)@.1), old(self)@.1),
    {
        let old = self.state;
        self.state = old.wrapping_mul(MULTIPLIER).wrapping_add(self.inc);
        let xorshifted = (((old >> 18) ^ old) >> 27) as u32;
        let rot = (old >> 59) as u32;
        rotate_right(xorshifted, rot)
    }

    /// Advance the generator and return the top 24 bits of the next output:
    /// the numerator of a uniform draw `n / 2^24` in `[0, 1)`, exactly the
    /// precision an `f32` mantissa holds.
    pub fn next_unit_numerator(&mut self) -> (n: u32)
        ensures
            n == pcg_output(old(self)@.0) / 256,
            n < 0x0100_0000,
            final(self)@ == (pcg_step(old(self)@.0, old(self)@.1), old(self)@.1),
    {
        let out = self.next_u32();
        assert(out >> 8 == out / 256) by (bit_vector);
        out >> 8
    }
}

} // verus!
