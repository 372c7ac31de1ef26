//! The xorshift32 generator behind every random choice of the games.
use vstd::prelude::*;

verus! {

/// One step of Marsaglia's xorshift32 (shifts 13, 17, 5).
pub open spec fn xorshift32(x: u32) -> u32 {
    let a = x ^ (x << 13u32);
    let b = a ^ (a >> 17u32);
    b ^ (b << 5u32)
}

/// Advances a xorshift32 state.
pub fn next_state(x: u32) -> (y: u32)
    ensures
        y == xorshift32(x),
{
    let mut s = x;
    s ^= s << 13u32;
    s ^= s >> 17u32;
    s ^= s << 5u32;
    s
}

/// The top 24 bits of a state: the numerator of a uniform sample in [0, 1)
/// whose denominator is 2^24.
pub fn unit_bits(x: u32) -> (k: u32)
    ensures
        k == x / 256,
        k < 16777216,
{
    let k = x >> 8u32;
    assert(x >> 8u32 == x / 256) by (bit_vector);
    k
}

/// A nonzero state never turns into zero, so the generator never gets stuck.
pub proof fn lemma_xorshift_nonzero(x: u32)
    requires
        x != 0,
    ensures
        xorshift32(x) != 0,
{
    assert(x != 0 ==> (x ^ (x << 13u32)) != 0) by (bit_vector);
    let a = x ^ (x << 13u32);
    assert(a != 0 ==> (a ^ (a >> 17u32)) != 0) by (bit_vector);
    let b = a ^ (a >> 17u32);
    assert(b != 0 ==> (b ^ (b << 5u32)) != 0) by (bit_vector);
}

} // verus!
