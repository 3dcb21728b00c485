use stegegg::prng::PrngState;
use stegegg::seed::{seed, state_from_digest};

#[test]
fn seed_of_the_empty_key() {
    assert_eq!(
        seed(&[]),
        PrngState(
            0xe3b0_c442_98fc_1c14,
            0x9afb_f4c8_996f_b924,
            0x27ae_41e4_649b_934c,
            0xa495_991b_7852_b855
        )
    );
}

#[test]
fn seed_of_abc() {
    assert_eq!(
        seed(b"abc"),
        PrngState(
            0xba78_16bf_8f01_cfea,
            0x4141_40de_5dae_2223,
            0xb003_61a3_9617_7a9c,
            0xb410_ff61_f200_15ad
        )
    );
}

#[test]
fn seed_is_the_same_for_the_same_key() {
    assert_eq!(seed(b"alpha"), seed(b"alpha"));
    assert_ne!(seed(b"alpha"), seed(b"beta"));
}

#[test]
fn seed_takes_a_key_longer_than_one_hash_block() {
    let key = vec![0x61u8; 200];
    assert_eq!(seed(&key), seed(&key.clone()));
    assert_ne!(seed(&key), seed(&key[..199]));
}

#[test]
fn state_from_digest_reads_big_endian_words() {
    let mut digest = [0u8; 32];
    for i in 0..32 {
        digest[i] = i as u8;
    }
    assert_eq!(
        state_from_digest(&digest),
        PrngState(
            0x0001_0203_0405_0607,
            0x0809_0a0b_0c0d_0e0f,
            0x1011_1213_1415_1617,
            0x1819_1a1b_1c1d_1e1f
        )
    );
}

#[test]
fn state_from_digest_extremes() {
    assert_eq!(state_from_digest(&[0u8; 32]), PrngState(0, 0, 0, 0));
    assert_eq!(
        state_from_digest(&[0xffu8; 32]),
        PrngState(u64::MAX, u64::MAX, u64::MAX, u64::MAX)
    );
    let mut digest = [0u8; 32];
    digest[7] = 1;
    digest[8] = 0x80;
    assert_eq!(state_from_digest(&digest), PrngState(1, 0x8000_0000_0000_0000, 0, 0));
}
