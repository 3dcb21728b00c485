//! The xoshiro256++ generator: four 64-bit words of state, one 64-bit word
//! of output per draw.

use vstd::prelude::*;

verus! {

/// The generator's whole state. Every future draw is a function of these
/// four words.
#[derive(Clone, Copy, Debug, PartialEq, Eq, Structural)]
pub struct PrngState(pub u64, pub u64, pub u64, pub u64);

/// The sum of two words, reduced modulo 2^64.
pub open spec fn wrapping_sum(a: u64, b: u64) -> u64 {
    ((a + b) % 0x1_0000_0000_0000_0000) as u64
}

/// `x` rotated left by `k` bits, for `0 < k < 64`.
pub open spec fn rotl_spec(x: u64, k: u64) -> u64 {
    (x << k) | (x >> ((64 - k) as u64))
}

/// The word that a draw from state `s` produces.
pub open spec fn next_output(s: PrngState) -> u64 {
    wrapping_sum(rotl_spec(wrapping_sum(s.0, s.3), 23), s.0)
}

/// The state that a draw from state `s` leaves behind.
pub open spec fn next_state(s: PrngState) -> PrngState {
    let t = s.1 << 17u64;
    let s2 = s.2 ^ s.0;
    let s3 = s.3 ^ s.1;
    let s1 = s.1 ^ s2;
    let s0 = s.0 ^ s3;
    PrngState(s0, s1, s2 ^ t, rotl_spec(s3, 45))
}

/// Rotates `x` left by `k` bits.
pub fn rotl(x: u64, k: u64) -> (r: u64)
    requires
        0 < k < 64,
    ensures
        r == rotl_spec(x, k),
{
    (x << k) | (x >> (64 - k))
}

/// Draws one word and advances the state.
pub fn xoshiro256pp(s: &mut PrngState) -> (result: u64)
    ensures
        result == next_output(*old(s)),
        *final(s) == next_state(*old(s)),
{
    let result: u64 = rotl(s.0.wrapping_add(s.3), 23).wrapping_add(s.0);
    let t: u64 = s.1 << 17;
    s.2 ^= s.0;
    s.3 ^= s.1;
    s.1 ^= s.2;
    s.0 ^= s.3;
    s.2 ^= t;
    s.3 = rotl(s.3, 45);
    result
}

} // verus!
