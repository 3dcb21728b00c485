//! Key-driven least-significant-bit steganography for RGB rasters.
//!
//! A payload is framed with a three-byte length header and its bits are
//! written, one per colour channel byte, into the lowest bit of the channels
//! that a key-derived permutation visits first. Reading the same channels in
//! the same order recovers the payload.

pub mod embed;
pub mod extract;
pub mod frame;
pub mod grid;
pub mod permutation;
pub mod prng;
pub mod roundtrip;
pub mod seed;
