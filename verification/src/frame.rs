//! Framing: a payload travels behind a three-byte little-endian header that
//! holds its length in bytes.

use vstd::prelude::*;

verus! {

/// The longest payload whose length the header can hold.
pub const MAX_PAYLOAD_LEN: usize = 0xFF_FFFF;

/// The number of bytes in the header.
pub const HEADER_LEN: usize = 3;

/// The payload is longer than the header can say.
#[derive(Clone, Copy, Debug, PartialEq, Eq, Structural)]
pub struct FrameError {
    /// The length of the payload that was refused, in bytes.
    pub len: usize,
}

/// The header of a payload of `len` bytes: `len` in base 256, least
/// significant digit first.
pub open spec fn header_of(len: nat) -> Seq<u8> {
    seq![(len % 256) as u8, (len / 256 % 256) as u8, (len / 65536 % 256) as u8]
}

/// The payload length that three header bytes stand for.
pub open spec fn header_value(h0: u8, h1: u8, h2: u8) -> nat {
    (h0 as nat) + 256 * (h1 as nat) + 65536 * (h2 as nat)
}

/// A payload behind its header.
pub open spec fn framed(payload: Seq<u8>) -> Seq<u8> {
    header_of(payload.len()) + payload
}

/// A header that was written for a length within the limit reads back as
/// that length.
pub proof fn lemma_header_round_trip(len: nat)
    requires
        len <= MAX_PAYLOAD_LEN,
    ensures
        header_value(header_of(len)[0], header_of(len)[1], header_of(len)[2]) == len,
{
}

proof fn lemma_header_bytes(len: u32)
    by (bit_vector)
    requires
        len <= 0xFF_FFFF,
    ensures
        len & 0xff == len % 256,
        (len >> 8) & 0xff == len / 256 % 256,
        (len >> 16) & 0xff == len / 65536 % 256,
{
}

proof fn lemma_header_value(h0: u8, h1: u8, h2: u8)
    by (bit_vector)
    ensures
        (h0 as u32) | (h1 as u32) << 8 | (h2 as u32) << 16 == (h0 as u32) + 256 * (h1 as u32)
            + 65536 * (h2 as u32),
{
}

/// Puts the length header in front of a payload. A payload longer than
/// `MAX_PAYLOAD_LEN` is refused.
pub fn frame(payload: &[u8]) -> (r: Result<Vec<u8>, FrameError>)
    ensures
        payload@.len() <= MAX_PAYLOAD_LEN ==> r is Ok && r->Ok_0@ == framed(payload@),
        payload@.len() > MAX_PAYLOAD_LEN ==> r == Err::<Vec<u8>, FrameError>(
            FrameError { len: payload.len() },
        ),
{
    let len: usize = payload.len();
    if len > MAX_PAYLOAD_LEN {
        return Err(FrameError { len });
    }
    let n: u32 = len as u32;
    proof {
        lemma_header_bytes(n);
    }
    let mut data: Vec<u8> = Vec::new();
    data.push((n & 0xff) as u8);
    data.push(((n >> 8) & 0xff) as u8);
    data.push(((n >> 16) & 0xff) as u8);
    let mut i: usize = 0;
    while i < len
        invariant
            i <= len,
            len == payload@.len(),
            data@ == header_of(len as nat) + payload@.subrange(0, i as int),
        decreases len - i,
    {
        data.push(payload[i]);
        i += 1;
    }
    assert(payload@.subrange(0, len as int) == payload@);
    Ok(data)
}

/// Reads the payload length out of the three header bytes.
pub fn header_length(h0: u8, h1: u8, h2: u8) -> (len: u32)
    ensures
        len == header_value(h0, h1, h2),
{
    proof {
        lemma_header_value(h0, h1, h2);
    }
    (h0 as u32) | (h1 as u32) << 8 | (h2 as u32) << 16
}

} // verus!
