//! From key bytes to the generator's initial state.
//!
//! The key is hashed with SHA-256 and the 32 bytes of the digest are read as
//! four big-endian 64-bit words, in order.

use vstd::prelude::*;
use sha2::{Digest, Sha256};
use crate::prng::PrngState;

verus! {

/// The SHA-256 digest of `data`.
pub uninterp spec fn sha256(data: Seq<u8>) -> Seq<u8>;

/// The eight bytes of `b` from position `at` on, read as one big-endian
/// 64-bit word.
pub open spec fn be_word(b: Seq<u8>, at: int) -> u64 {
    (b[at] as int * 0x0100_0000_0000_0000 + b[at + 1] as int * 0x0001_0000_0000_0000 + b[at
        + 2] as int * 0x0000_0100_0000_0000 + b[at + 3] as int * 0x0000_0001_0000_0000 + b[at
        + 4] as int * 0x0000_0000_0100_0000 + b[at + 5] as int * 0x0000_0000_0001_0000 + b[at
        + 6] as int * 0x0000_0000_0000_0100 + b[at + 7] as int) as u64
}

/// The generator state that a 32-byte digest stands for: its four
/// consecutive big-endian words.
pub open spec fn digest_state(digest: Seq<u8>) -> PrngState {
    PrngState(be_word(digest, 0), be_word(digest, 8), be_word(digest, 16), be_word(digest, 24))
}

/// The generator state that a key seeds.
pub open spec fn seed_state(key: Seq<u8>) -> PrngState {
    digest_state(sha256(key))
}

/// Calls `sha2::Sha256::digest` (the `Digest` trait's one-shot hash) on
/// `data` and returns the digest as a plain array. Trusted: the result is
/// the SHA-256 digest of exactly the bytes given, which the contract only
/// names; the output size of `Sha256` is 32 bytes.
#[verifier::external_body]
fn sha256_digest(data: &[u8]) -> (digest: [u8; 32])
    ensures
        digest@ == sha256(data@),
{
    Sha256::digest(data).into()
}

proof fn lemma_be_word(b0: u8, b1: u8, b2: u8, b3: u8, b4: u8, b5: u8, b6: u8, b7: u8)
    by (bit_vector)
    ensures
        (b0 as u64) << 56 | (b1 as u64) << 48 | (b2 as u64) << 40 | (b3 as u64) << 32 | (b4 as u64)
            << 24 | (b5 as u64) << 16 | (b6 as u64) << 8 | (b7 as u64) == b0 as int
            * 0x0100_0000_0000_0000 + b1 as int * 0x0001_0000_0000_0000 + b2 as int
            * 0x0000_0100_0000_0000 + b3 as int * 0x0000_0001_0000_0000 + b4 as int
            * 0x0000_0000_0100_0000 + b5 as int * 0x0000_0000_0001_0000 + b6 as int
            * 0x0000_0000_0000_0100 + b7 as int,
{
}

fn read_be_word(digest: &[u8; 32], at: usize) -> (w: u64)
    requires
        at + 8 <= 32,
    ensures
        w == be_word(digest@, at as int),
{
    proof {
        lemma_be_word(
            digest[at as int],
            digest[at + 1],
            digest[at + 2],
            digest[at + 3],
            digest[at + 4],
            digest[at + 5],
            digest[at + 6],
            digest[at + 7],
        );
    }
    (digest[at] as u64) << 56 | (digest[at + 1] as u64) << 48 | (digest[at + 2] as u64) << 40 | (
    digest[at + 3] as u64) << 32 | (digest[at + 4] as u64) << 24 | (digest[at + 5] as u64) << 16 | (
    digest[at + 6] as u64) << 8 | (digest[at + 7] as u64)
}

/// Reads a 32-byte digest as the generator's four state words.
pub fn state_from_digest(digest: &[u8; 32]) -> (s: PrngState)
    ensures
        s == digest_state(digest@),
{
    PrngState(
        read_be_word(digest, 0),
        read_be_word(digest, 8),
        read_be_word(digest, 16),
        read_be_word(digest, 24),
    )
}

/// Derives the generator's initial state from a key of any length, the
/// empty key included.
pub fn seed(key: &[u8]) -> (s: PrngState)
    ensures
        s == seed_state(key@),
{
    let digest: [u8; 32] = sha256_digest(key);
    state_from_digest(&digest)
}

} // verus!
