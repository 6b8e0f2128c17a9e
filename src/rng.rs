//! The xorshift64* generator behind the raffle draw, seeded from the time of
//! the draw.

use vstd::prelude::*;

verus! {

pub const SEED_MIX: u64 = 0x9E3779B97F4A7C15;

pub const OUTPUT_MIX: u64 = 0x2545F4914F6CDD1D;

/// The generator's next state.
pub open spec fn xorshift(x: u64) -> u64 {
    let a = x ^ (x >> 12u64);
    let b = a ^ (a << 25u64);
    b ^ (b >> 27u64)
}

/// The number handed out for a state.
pub open spec fn scramble(x: u64) -> u64 {
    x.wrapping_mul(OUTPUT_MIX)
}

/// The seed for a draw at `micros`.
pub open spec fn seed_of(micros: i64) -> u64 {
    (micros as u64).wrapping_mul(SEED_MIX)
}

/// Steps the generator and returns its next number.
pub fn next_rand_u64(seed: &mut u64) -> (r: u64)
    ensures
        *final(seed) == xorshift(*old(seed)),
        r == scramble(*final(seed)),
{
    let mut x = *seed;
    x = x ^ (x >> 12);
    x = x ^ (x << 25);
    x = x ^ (x >> 27);
    *seed = x;
    x.wrapping_mul(OUTPUT_MIX)
}

/// The seed for a draw made at `micros`.
pub fn seed_from_timestamp(micros: i64) -> (r: u64)
    ensures
        r == seed_of(micros),
{
    (micros as u64).wrapping_mul(SEED_MIX)
}

} // verus!
