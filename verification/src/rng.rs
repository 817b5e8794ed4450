//! The reference tracer's per-sample random stream: a PCG-style generator
//! seeded from pixel, sample and global seed, so that renders repeat exactly.

use vstd::prelude::*;

verus! {

/// The PCG multiplier.
pub const PCG_MULTIPLIER: u64 = 6364136223846793005;

/// The PCG increment.
pub const PCG_INCREMENT: u64 = 1442695040888963407;

/// The state after one step of the generator.
pub open spec fn pcg_step(state: u64) -> u64 {
    state.wrapping_mul(PCG_MULTIPLIER).wrapping_add(PCG_INCREMENT)
}

/// `x` rotated right by `r` bits (`r < 32`), as `u32::rotate_right` does.
pub open spec fn rotr32(x: u32, r: u32) -> u32 {
    if r == 0 { x } else { (x >> r) | (x << (32 - r) as u32) }
}

/// The output drawn from a freshly stepped state: an xorshift of the high
/// bits, rotated by the top five bits.
pub open spec fn pcg_output(state: u64) -> u32 {
    rotr32((((state >> 18u64) ^ state) >> 27u64) as u32, (state >> 59u64) as u32)
}

/// A deterministic random stream.
#[derive(Clone, Copy, Debug, PartialEq, Eq, Structural)]
pub struct Rng {
    pub state: u64,
}

fn rotate_right(x: u32, r: u32) -> (y: u32)
    requires
        r < 32,
    ensures
        y == rotr32(x, r),
{
    if r == 0 { x } else { (x >> r) | (x << (32 - r)) }
}

impl Rng {
    /// A stream seeded with `seed`, stepped once so that the first value
    /// drawn is not degenerate.
    pub fn new(seed: u64) -> (rng: Rng)
        ensures
            rng.state == pcg_step(seed),
    {
        let mut s = Rng { state: seed };
        s.next_u32();
        s
    }

    /// Steps the stream and draws 32 bits.
    pub fn next_u32(&mut self) -> (value: u32)
        ensures
            final(self).state == pcg_step(old(self).state),
            value == pcg_output(final(self).state),
    {
        self.state = self.state.wrapping_mul(PCG_MULTIPLIER).wrapping_add(PCG_INCREMENT);
        let s = self.state;
        let xorshifted = (((s >> 18u64) ^ s) >> 27u64) as u32;
        let rot = (s >> 59u64) as u32;
        assert((s >> 59u64) < 32) by (bit_vector);
        rotate_right(xorshifted, rot)
    }
}

/// The seed of one pixel sample: the global seed mixed with the pixel
/// coordinates and sample index, each spread by an odd 64-bit constant.
pub open spec fn sample_seed(x: u32, y: u32, sample: u32, global_seed: u64) -> u64 {
    global_seed
        ^ (x as u64).wrapping_mul(0x9E3779B97F4A7C15)
        ^ (y as u64).wrapping_mul(0xBF58476D1CE4E5B9)
        ^ (sample as u64).wrapping_mul(0x94D049BB133111EB)
}

/// The seed of the stream for pixel `(x, y)` and sample `sample`, so that
/// each pixel sample draws its own reproducible stream.
pub fn seed_for(x: u32, y: u32, sample: u32, global_seed: u64) -> (seed: u64)
    ensures
        seed == sample_seed(x, y, sample, global_seed),
{
    let mut s = global_seed;
    s = s ^ (x as u64).wrapping_mul(0x9E3779B97F4A7C15);
    s = s ^ (y as u64).wrapping_mul(0xBF58476D1CE4E5B9);
    s = s ^ (sample as u64).wrapping_mul(0x94D049BB133111EB);
    s
}

} // verus!
