//! Embedding: the bits of a frame go, least significant bit of each byte
//! first, into the lowest bit of the channel bytes that the visiting order
//! names first.

use vstd::prelude::*;
use crate::frame::{frame, framed, FrameError, MAX_PAYLOAD_LEN};
use crate::grid::{lemma_spot_at, locate_spot, Grid, HidingSpot};
use crate::permutation::{
    build_permutation,
    is_permutation,
    permutation_of,
    state_after_permutation,
};
use crate::prng::PrngState;

verus! {

/// The frame needs more hiding spots than the grid has.
#[derive(Clone, Copy, Debug, PartialEq, Eq, Structural)]
pub struct CapacityError {
    /// The number of bits in the frame.
    pub needed: u128,
    /// The number of hiding spots in the grid.
    pub available: u32,
}

/// Why a payload was not embedded.
#[derive(Clone, Copy, Debug, PartialEq, Eq, Structural)]
pub enum EmbedError {
    /// The payload is too long to be framed.
    Frame(FrameError),
    /// The frame does not fit into the grid.
    Capacity(CapacityError),
}

/// Bit `n` of byte `b`, as 0 or 1.
pub open spec fn bit_of(b: u8, n: u8) -> u8 {
    (b >> n) & 1
}

/// Bit `k` of a byte sequence, counting from the least significant bit of
/// the first byte.
pub open spec fn data_bit(data: Seq<u8>, k: int) -> u8 {
    bit_of(data[k / 8], (k % 8) as u8)
}

/// `byte` with its lowest bit replaced by `bit`.
pub open spec fn with_lsb(byte: u8, bit: u8) -> u8 {
    byte & 0xfe | bit
}

/// The channel bytes after the first `bits` bits of `data` have been
/// written: bit `k` goes into the lowest bit of the byte that `order[k]`
/// names.
pub open spec fn hidden(channels: Seq<u8>, order: Seq<u32>, data: Seq<u8>, bits: nat) -> Seq<u8>
    decreases bits,
{
    if bits == 0 {
        channels
    } else {
        let before = hidden(channels, order, data, (bits - 1) as nat);
        let at = order[bits - 1] as int;
        before.update(at, with_lsb(before[at], data_bit(data, bits - 1)))
    }
}

/// A bit is 0 or 1, and a byte whose lowest bit was replaced shows the new
/// bit and keeps its upper seven bits.
pub proof fn lemma_with_lsb(byte: u8, b: u8, n: u8)
    by (bit_vector)
    requires
        n < 8,
    ensures
        bit_of(b, n) <= 1,
        with_lsb(byte, bit_of(b, n)) & 1 == bit_of(b, n),
        with_lsb(byte, bit_of(b, n)) & 0xfe == byte & 0xfe,
{
}

/// Writing bits changes neither the number of channel bytes nor the upper
/// seven bits of any of them, and leaves every byte as it was that none of
/// the first `bits` entries of the order names.
pub proof fn lemma_hidden_keeps(channels: Seq<u8>, order: Seq<u32>, data: Seq<u8>, bits: nat)
    requires
        bits <= order.len(),
        forall|k: int| 0 <= k < bits ==> (#[trigger] order[k]) < channels.len(),
    ensures
        hidden(channels, order, data, bits).len() == channels.len(),
        forall|s: int|
            0 <= s < channels.len() ==> (#[trigger] hidden(channels, order, data, bits)[s]) & 0xfe
                == channels[s] & 0xfe,
        forall|s: int|
            0 <= s < channels.len() && (forall|k: int| 0 <= k < bits ==> order[k] != s)
                ==> #[trigger] hidden(channels, order, data, bits)[s] == channels[s],
    decreases bits,
{
    if bits > 0 {
        let before = hidden(channels, order, data, (bits - 1) as nat);
        let after = hidden(channels, order, data, bits);
        let at = order[bits - 1] as int;
        lemma_hidden_keeps(channels, order, data, (bits - 1) as nat);
        lemma_with_lsb(before[at], data[(bits - 1) / 8], ((bits - 1) % 8) as u8);
        assert forall|s: int| 0 <= s < channels.len() implies (#[trigger] after[s]) & 0xfe
            == channels[s] & 0xfe by {
            assert(before[s] & 0xfe == channels[s] & 0xfe);
        }
        assert forall|s: int|
            0 <= s < channels.len() && (forall|k: int|
                0 <= k < bits ==> order[k] != s) implies #[trigger] after[s] == channels[s] by {
            assert(order[bits - 1] != s);
            assert(before[s] == channels[s]);
        }
    }
}

/// Where no spot is visited twice, the byte that entry `k` of the order
/// names holds its old value with the lowest bit replaced by bit `k` of the
/// data, for every `k` below `bits`.
pub proof fn lemma_hidden_bit(
    channels: Seq<u8>,
    order: Seq<u32>,
    data: Seq<u8>,
    bits: nat,
    k: int,
)
    requires
        is_permutation(order),
        order.len() == channels.len(),
        0 <= k < bits <= order.len(),
    ensures
        hidden(channels, order, data, bits)[order[k] as int] == with_lsb(
            channels[order[k] as int],
            data_bit(data, k),
        ),
        hidden(channels, order, data, bits)[order[k] as int] & 1 == data_bit(data, k),
    decreases bits,
{
    let before = hidden(channels, order, data, (bits - 1) as nat);
    let at = order[bits - 1] as int;
    lemma_hidden_keeps(channels, order, data, (bits - 1) as nat);
    lemma_with_lsb(channels[order[k] as int], data[k / 8], (k % 8) as u8);
    if k == bits - 1 {
        assert forall|j: int| 0 <= j < bits - 1 implies order[j] != at by {
            assert(order[j] != order[bits - 1]);
        }
        assert(before[at] == channels[at]);
    } else {
        lemma_hidden_bit(channels, order, data, (bits - 1) as nat, k);
        assert(order[k] != order[bits - 1]);
    }
}

/// Returns bit `n` of byte `b`.
pub fn get_bit(b: u8, n: u8) -> (bit: u8)
    requires
        n < 8,
    ensures
        bit == bit_of(b, n),
        bit <= 1,
{
    proof {
        lemma_with_lsb(0, b, n);
    }
    (b >> n) & 1
}

/// Hides `data` in `image`. The order in which hiding spots are visited is
/// built from the generator state, which advances by one draw for each
/// hiding spot.
///
/// Nothing is written unless all of `data` fits: with more bits than hiding
/// spots, or with no hiding spots at all, the call fails and leaves both the
/// grid and the generator as they were.
pub fn hide_data(data: &Vec<u8>, image: &mut Grid, prng_state: &mut PrngState) -> (r: Result<
    (),
    CapacityError,
>)
    requires
        old(image).wf(),
    ensures
        final(image).wf(),
        final(image).spec_width() == old(image).spec_width(),
        final(image).spec_height() == old(image).spec_height(),
        r is Err <==> 8 * data@.len() > old(image)@.len() || old(image)@.len() == 0,
        r is Err ==> r->Err_0 == (CapacityError {
            needed: (8 * data@.len()) as u128,
            available: old(image)@.len() as u32,
        }) && *final(image) == *old(image) && *final(prng_state) == *old(prng_state),
        r is Ok ==> final(image)@ == hidden(
            old(image)@,
            permutation_of(old(image)@.len(), *old(prng_state)),
            data@,
            8 * data@.len(),
        ) && *final(prng_state) == state_after_permutation(old(image)@.len(), *old(prng_state)),
        forall|s: int|
            0 <= s < old(image)@.len() ==> (#[trigger] final(image)@[s]) & 0xfe == old(image)@[s]
                & 0xfe,
        forall|s: int|
            0 <= s < old(image)@.len() && (forall|k: int|
                0 <= k < 8 * data@.len() ==> permutation_of(
                    old(image)@.len(),
                    *old(prng_state),
                )[k] != s) ==> #[trigger] final(image)@[s] == old(image)@[s],
{
    let width: u32 = image.width();
    let hiding_spots: u32 = image.hiding_spots();
    let needed: u128 = 8 * (data.len() as u128);
    if data.len() > (hiding_spots / 8) as usize {
        return Err(CapacityError { needed, available: hiding_spots });
    }
    let indices: Vec<u32> = match build_permutation(hiding_spots, prng_state) {
        Ok(v) => v,
        Err(_) => {
            return Err(CapacityError { needed, available: hiding_spots });
        },
    };
    let mut iidx: usize = 0;
    let mut i: usize = 0;
    while i < data.len()
        invariant
            i <= data@.len(),
            iidx == 8 * i,
            8 * data@.len() <= hiding_spots,
            indices@.len() == hiding_spots,
            is_permutation(indices@),
            image.wf(),
            image@.len() == hiding_spots,
            image.spec_width() == width,
            image.spec_width() == old(image).spec_width(),
            image.spec_height() == old(image).spec_height(),
            image@ == hidden(old(image)@, indices@, data@, iidx as nat),
        decreases data@.len() - i,
    {
        let b: u8 = data[i];
        let mut n: u8 = 0;
        while n < 8
            invariant
                i < data@.len(),
                b == data@[i as int],
                n <= 8,
                iidx == 8 * i + n,
                8 * data@.len() <= hiding_spots,
                indices@.len() == hiding_spots,
                is_permutation(indices@),
                image.wf(),
                image@.len() == hiding_spots,
                image.spec_width() == width,
                image.spec_width() == old(image).spec_width(),
                image.spec_height() == old(image).spec_height(),
                image@ == hidden(old(image)@, indices@, data@, iidx as nat),
            decreases 8 - n,
        {
            let spot_idx: u32 = indices[iidx];
            proof {
                lemma_spot_at(spot_idx, width, image.spec_height());
            }
            let spot: HidingSpot = locate_spot(spot_idx, width);
            let byte: u8 = image.channel(spot);
            image.set_channel(spot, byte & 0xfe | get_bit(b, n));
            iidx += 1;
            n += 1;
        }
        i += 1;
    }
    proof {
        lemma_hidden_keeps(old(image)@, indices@, data@, iidx as nat);
    }
    Ok(())
}

/// Frames `payload` and hides the frame in `image`.
///
/// A payload longer than `MAX_PAYLOAD_LEN` is refused before the grid's
/// capacity is looked at. Every failure leaves the grid and the generator as
/// they were.
pub fn embed(payload: &[u8], image: &mut Grid, prng_state: &mut PrngState) -> (r: Result<
    (),
    EmbedError,
>)
    requires
        old(image).wf(),
    ensures
        final(image).wf(),
        final(image).spec_width() == old(image).spec_width(),
        final(image).spec_height() == old(image).spec_height(),
        r is Ok <==> payload@.len() <= MAX_PAYLOAD_LEN && 24 + 8 * payload@.len() <= old(
            image,
        )@.len(),
        payload@.len() > MAX_PAYLOAD_LEN ==> r == Err::<(), EmbedError>(
            EmbedError::Frame(FrameError { len: payload.len() }),
        ),
        payload@.len() <= MAX_PAYLOAD_LEN && 24 + 8 * payload@.len() > old(image)@.len() ==> r
            == Err::<(), EmbedError>(
            EmbedError::Capacity(
                CapacityError {
                    needed: (24 + 8 * payload@.len()) as u128,
                    available: old(image)@.len() as u32,
                },
            ),
        ),
        r is Err ==> *final(image) == *old(image) && *final(prng_state) == *old(prng_state),
        r is Ok ==> final(image)@ == hidden(
            old(image)@,
            permutation_of(old(image)@.len(), *old(prng_state)),
            framed(payload@),
            (24 + 8 * payload@.len()) as nat,
        ) && *final(prng_state) == state_after_permutation(old(image)@.len(), *old(prng_state)),
        forall|s: int|
            0 <= s < old(image)@.len() ==> (#[trigger] final(image)@[s]) & 0xfe == old(image)@[s]
                & 0xfe,
        forall|s: int|
            0 <= s < old(image)@.len() && (forall|k: int|
                0 <= k < 24 + 8 * payload@.len() ==> permutation_of(
                    old(image)@.len(),
                    *old(prng_state),
                )[k] != s) ==> #[trigger] final(image)@[s] == old(image)@[s],
{
    let data: Vec<u8> = match frame(payload) {
        Ok(d) => d,
        Err(e) => {
            return Err(EmbedError::Frame(e));
        },
    };
    match hide_data(&data, image, prng_state) {
        Ok(()) => Ok(()),
        Err(e) => Err(EmbedError::Capacity(e)),
    }
}

} // verus!
