//! Extraction: the lowest bits of the channel bytes that the visiting order
//! names, read in that order and packed least significant bit first, give
//! the header and then the payload.

use vstd::prelude::*;
use crate::frame::{header_length, header_value};
use crate::grid::{lemma_spot_at, locate_spot, Grid, HidingSpot};
use crate::permutation::{
    build_permutation,
    is_permutation,
    permutation_of,
    state_after_permutation,
};
use crate::prng::PrngState;

verus! {

/// Why nothing was extracted.
#[derive(Clone, Copy, Debug, PartialEq, Eq, Structural)]
pub enum DecodeError {
    /// The header and the payload length that it gives need more hiding
    /// spots than the grid has. This is what a wrong key or a grid that
    /// carries nothing most often looks like.
    OversizedHeader,
    /// The grid has no hiding spots.
    NoHidingSpots,
}

/// The bit that entry `k` of the order carries: the lowest bit of the
/// channel byte that it names.
pub open spec fn spot_bit(channels: Seq<u8>, order: Seq<u32>, k: int) -> u8 {
    channels[order[k] as int] & 1
}

/// The value of the `n` bits carried by entries `first, ..., first + n - 1`
/// of the order, the first of them least significant.
pub open spec fn packed_bits(channels: Seq<u8>, order: Seq<u32>, first: int, n: nat) -> u8
    decreases n,
{
    if n == 0 {
        0
    } else {
        packed_bits(channels, order, first, (n - 1) as nat) | (spot_bit(
            channels,
            order,
            first + n - 1,
        ) << ((n - 1) as u8))
    }
}

/// Byte `i` of what the grid carries.
pub open spec fn byte_read(channels: Seq<u8>, order: Seq<u32>, i: int) -> u8 {
    packed_bits(channels, order, 8 * i, 8)
}

/// The payload length that the first three carried bytes give.
pub open spec fn length_read(channels: Seq<u8>, order: Seq<u32>) -> nat {
    header_value(
        byte_read(channels, order, 0),
        byte_read(channels, order, 1),
        byte_read(channels, order, 2),
    )
}

/// The `len` carried bytes that follow the header.
pub open spec fn payload_read(channels: Seq<u8>, order: Seq<u32>, len: nat) -> Seq<u8> {
    Seq::new(len, |i: int| byte_read(channels, order, 3 + i))
}

/// What extraction gives for channel bytes visited in the given order.
pub open spec fn extracted(channels: Seq<u8>, order: Seq<u32>) -> Result<Seq<u8>, DecodeError> {
    if channels.len() == 0 {
        Err(DecodeError::NoHidingSpots)
    } else if channels.len() < 24 || 24 + 8 * length_read(channels, order) > channels.len() {
        Err(DecodeError::OversizedHeader)
    } else {
        Ok(payload_read(channels, order, length_read(channels, order)))
    }
}

/// Reads the byte carried by the eight entries of the order from `first` on.
fn read_byte(image: &Grid, indices: &Vec<u32>, first: usize) -> (byte: u8)
    requires
        image.wf(),
        indices@.len() == image@.len(),
        is_permutation(indices@),
        first + 8 <= indices@.len(),
    ensures
        byte == packed_bits(image@, indices@, first as int, 8),
{
    let width: u32 = image.width();
    let mut byte: u8 = 0;
    let mut n: u8 = 0;
    while n < 8
        invariant
            n <= 8,
            image.wf(),
            width == image.spec_width(),
            indices@.len() == image@.len(),
            is_permutation(indices@),
            first + 8 <= indices@.len(),
            byte == packed_bits(image@, indices@, first as int, n as nat),
        decreases 8 - n,
    {
        let spot_idx: u32 = indices[first + n as usize];
        proof {
            lemma_spot_at(spot_idx, width, image.spec_height());
        }
        let spot: HidingSpot = locate_spot(spot_idx, width);
        byte |= (image.channel(spot) & 1) << n;
        n += 1;
    }
    byte
}

/// Recovers the payload that `image` carries. The order in which hiding
/// spots are visited is built from the generator state, which advances by
/// one draw for each hiding spot.
///
/// The header is believed only as far as it can be checked: the call fails
/// where header and payload would need more hiding spots than the grid has,
/// which includes every grid with fewer than 24 of them.
pub fn extract_data(image: &Grid, prng_state: &mut PrngState) -> (r: Result<Vec<u8>, DecodeError>)
    requires
        image.wf(),
    ensures
        match r {
            Ok(msg) => extracted(image@, permutation_of(image@.len(), *old(prng_state))) == Ok::<
                Seq<u8>,
                DecodeError,
            >(msg@),
            Err(e) => extracted(image@, permutation_of(image@.len(), *old(prng_state))) == Err::<
                Seq<u8>,
                DecodeError,
            >(e),
        },
        image@.len() == 0 ==> *final(prng_state) == *old(prng_state),
        image@.len() > 0 ==> *final(prng_state) == state_after_permutation(
            image@.len(),
            *old(prng_state),
        ),
{
    let hiding_spots: u32 = image.hiding_spots();
    let indices: Vec<u32> = match build_permutation(hiding_spots, prng_state) {
        Ok(v) => v,
        Err(_) => {
            return Err(DecodeError::NoHidingSpots);
        },
    };
    if hiding_spots < 24 {
        return Err(DecodeError::OversizedHeader);
    }
    let h0: u8 = read_byte(image, &indices, 0);
    let h1: u8 = read_byte(image, &indices, 8);
    let h2: u8 = read_byte(image, &indices, 16);
    let msg_len: u32 = header_length(h0, h1, h2);
    if msg_len > (hiding_spots - 24) / 8 {
        return Err(DecodeError::OversizedHeader);
    }
    let mut msg: Vec<u8> = Vec::new();
    let mut i: u32 = 0;
    while i < msg_len
        invariant
            i <= msg_len,
            24 + 8 * msg_len <= hiding_spots,
            image.wf(),
            indices@.len() == hiding_spots,
            image@.len() == hiding_spots,
            is_permutation(indices@),
            msg@ == payload_read(image@, indices@, i as nat),
        decreases msg_len - i,
    {
        let b: u8 = read_byte(image, &indices, (24 + 8 * i) as usize);
        msg.push(b);
        assert(msg@ == payload_read(image@, indices@, (i + 1) as nat));
        i += 1;
    }
    Ok(msg)
}

} // verus!
