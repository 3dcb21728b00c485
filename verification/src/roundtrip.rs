//! What embedding and extraction owe each other.

use vstd::prelude::*;
use crate::embed::{bit_of, hidden, lemma_hidden_bit, lemma_hidden_keeps};
use crate::extract::{
    byte_read,
    extracted,
    length_read,
    packed_bits,
    payload_read,
    spot_bit,
    DecodeError,
};
use crate::frame::{framed, header_of, lemma_header_round_trip, MAX_PAYLOAD_LEN};
use crate::permutation::{
    is_permutation,
    lemma_permutation_of_is_permutation,
    permutation_of,
    state_after_permutation,
};
use crate::prng::PrngState;
use crate::seed::seed_state;

verus! {

/// The visiting order, and the generator state that building it leaves
/// behind, depend on nothing but the number of hiding spots and the bytes of
/// the key: equal keys give the same order, however often it is built.
pub proof fn lemma_same_key_same_order(n: nat, key: Seq<u8>, other_key: Seq<u8>)
    requires
        key =~= other_key,
    ensures
        permutation_of(n, seed_state(key)) == permutation_of(n, seed_state(other_key)),
        state_after_permutation(n, seed_state(key)) == state_after_permutation(
            n,
            seed_state(other_key),
        ),
{
}

/// The lowest `n` bits of `b`.
spec fn low_bits(b: u8, n: nat) -> u8 {
    if n >= 8 {
        b
    } else {
        b & !(0xffu8 << (n as u8))
    }
}

proof fn lemma_low_bits_step(b: u8, n: u8)
    by (bit_vector)
    requires
        n < 8,
    ensures
        (b & !(0xffu8 << n)) | (((b >> n) & 1) << n) == if n == 7 {
            b
        } else {
            b & !(0xffu8 << ((n + 1) as u8))
        },
        b & !(0xffu8 << 0u8) == 0,
{
}

/// Where the entries of the order from `8 * i` on carry the bits of byte
/// `b`, least significant first, the first `n` of them pack to the lowest
/// `n` bits of `b`.
proof fn lemma_packed_bits(channels: Seq<u8>, order: Seq<u32>, b: u8, i: int, n: nat)
    requires
        n <= 8,
        forall|k: int|
            8 * i <= k < 8 * i + n ==> #[trigger] spot_bit(channels, order, k) == bit_of(
                b,
                (k - 8 * i) as u8,
            ),
    ensures
        packed_bits(channels, order, 8 * i, n) == low_bits(b, n),
    decreases n,
{
    if n == 0 {
        lemma_low_bits_step(b, 0);
    } else {
        lemma_packed_bits(channels, order, b, i, (n - 1) as nat);
        lemma_low_bits_step(b, (n - 1) as u8);
        assert(spot_bit(channels, order, 8 * i + n - 1) == bit_of(b, (n - 1) as u8));
    }
}

/// Every byte of `data` that was hidden in full reads back as it was
/// written, where the order visits no spot twice.
pub proof fn lemma_byte_read_back(channels: Seq<u8>, order: Seq<u32>, data: Seq<u8>, i: int)
    requires
        is_permutation(order),
        order.len() == channels.len(),
        8 * data.len() <= channels.len(),
        0 <= i < data.len(),
    ensures
        byte_read(hidden(channels, order, data, 8 * data.len()), order, i) == data[i],
{
    let carrier = hidden(channels, order, data, 8 * data.len());
    assert forall|k: int| 8 * i <= k < 8 * i + 8 implies #[trigger] spot_bit(carrier, order, k)
        == bit_of(data[i], (k - 8 * i) as u8) by {
        lemma_hidden_bit(channels, order, data, 8 * data.len(), k);
        assert(k / 8 == i && k % 8 == k - 8 * i);
    }
    lemma_packed_bits(carrier, order, data[i], i, 8);
}

/// A payload that was framed and hidden is what extraction gives back,
/// whenever the payload is short enough to be framed, the frame fits into
/// the channel bytes, and both sides visit the hiding spots in the order
/// that the same generator state gives.
pub proof fn lemma_round_trip(channels: Seq<u8>, payload: Seq<u8>, s: PrngState)
    requires
        payload.len() <= MAX_PAYLOAD_LEN,
        24 + 8 * payload.len() <= channels.len() <= u32::MAX,
    ensures
        extracted(
            hidden(
                channels,
                permutation_of(channels.len(), s),
                framed(payload),
                (24 + 8 * payload.len()) as nat,
            ),
            permutation_of(channels.len(), s),
        ) == Ok::<Seq<u8>, DecodeError>(payload),
{
    let order = permutation_of(channels.len(), s);
    let data = framed(payload);
    let carrier = hidden(channels, order, data, 8 * data.len());
    lemma_permutation_of_is_permutation(channels.len(), s);
    lemma_hidden_keeps(channels, order, data, 8 * data.len());
    lemma_byte_read_back(channels, order, data, 0);
    lemma_byte_read_back(channels, order, data, 1);
    lemma_byte_read_back(channels, order, data, 2);
    lemma_header_round_trip(payload.len());
    assert(data[0] == header_of(payload.len())[0]);
    assert(data[1] == header_of(payload.len())[1]);
    assert(data[2] == header_of(payload.len())[2]);
    assert(length_read(carrier, order) == payload.len());
    assert forall|i: int| 0 <= i < payload.len() implies #[trigger] payload_read(
        carrier,
        order,
        payload.len(),
    )[i] == payload[i] by {
        lemma_byte_read_back(channels, order, data, 3 + i);
        assert(data[3 + i] == payload[i]);
    }
    assert(payload_read(carrier, order, payload.len()) =~= payload);
}

/// The round trip under a key: what was embedded with the state that a key
/// seeds is extracted with the state that the same key seeds.
pub proof fn lemma_round_trip_with_key(channels: Seq<u8>, payload: Seq<u8>, key: Seq<u8>)
    requires
        payload.len() <= MAX_PAYLOAD_LEN,
        24 + 8 * payload.len() <= channels.len() <= u32::MAX,
    ensures
        extracted(
            hidden(
                channels,
                permutation_of(channels.len(), seed_state(key)),
                framed(payload),
                (24 + 8 * payload.len()) as nat,
            ),
            permutation_of(channels.len(), seed_state(key)),
        ) == Ok::<Seq<u8>, DecodeError>(payload),
{
    lemma_round_trip(channels, payload, seed_state(key));
}

} // verus!
