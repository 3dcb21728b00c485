use stegegg::permutation::{build_permutation, shuffle, PermutationError};
use stegegg::prng::{xoshiro256pp, PrngState};
use stegegg::seed::seed;

fn is_bijection(p: &[u32]) -> bool {
    let mut seen = vec![false; p.len()];
    for &v in p {
        if (v as usize) >= p.len() || seen[v as usize] {
            return false;
        }
        seen[v as usize] = true;
    }
    true
}

#[test]
fn permutation_of_ten_from_one_two_three_four() {
    let mut s = PrngState(1, 2, 3, 4);
    assert_eq!(build_permutation(10, &mut s), Ok(vec![0, 9, 4, 6, 5, 3, 8, 2, 7, 1]));
}

#[test]
fn permutation_of_twelve_from_the_empty_key() {
    let mut s = seed(&[]);
    assert_eq!(
        build_permutation(12, &mut s),
        Ok(vec![4, 10, 8, 7, 0, 3, 6, 9, 5, 11, 1, 2])
    );
    assert_eq!(
        s,
        PrngState(
            0x9388_0748_88f9_c0ee,
            0xeed7_71b6_8f46_0bcc,
            0x83ae_46f9_4a04_7526,
            0xd9df_e115_1faf_9f1e
        )
    );
}

#[test]
fn permutation_of_nothing_is_refused_before_any_draw() {
    let mut s = PrngState(1, 2, 3, 4);
    assert_eq!(build_permutation(0, &mut s), Err(PermutationError));
    assert_eq!(s, PrngState(1, 2, 3, 4));
}

#[test]
fn permutation_of_one() {
    let mut s = PrngState(9, 8, 7, 6);
    assert_eq!(build_permutation(1, &mut s), Ok(vec![0]));
}

#[test]
fn permutation_is_a_bijection() {
    for n in 1..200u32 {
        let mut s = PrngState(n as u64, 2, 3, 4);
        let p = build_permutation(n, &mut s).unwrap();
        assert_eq!(p.len(), n as usize);
        assert!(is_bijection(&p));
    }
}

#[test]
fn permutation_is_the_same_for_the_same_key() {
    let mut a = seed(b"alpha");
    let mut b = seed(b"alpha");
    assert_eq!(build_permutation(300, &mut a), build_permutation(300, &mut b));
    assert_eq!(a, b);
}

#[test]
fn permutation_advances_the_generator_by_one_draw_per_spot() {
    let mut a = PrngState(1, 2, 3, 4);
    let mut b = PrngState(1, 2, 3, 4);
    build_permutation(5, &mut a).unwrap();
    for _ in 0..5 {
        xoshiro256pp(&mut b);
    }
    assert_eq!(a, b);
}

#[test]
fn shuffle_draws_from_the_whole_range() {
    let mut s = PrngState(1, 2, 3, 4);
    let mut v: Vec<u32> = vec![5, 5, 7, 9];
    shuffle(&mut v, &mut s);
    assert_eq!(v, vec![5, 9, 7, 5]);
    assert_eq!(
        s,
        PrngState(
            0x8000_a000_1804_0305,
            0x0000_c008_180a_0007,
            0x8000_0008_1804_0000,
            0x0060_f000_0c00_0000
        )
    );
}

#[test]
fn shuffle_of_nothing_draws_nothing() {
    let mut s = PrngState(1, 2, 3, 4);
    let mut v: Vec<u32> = Vec::new();
    shuffle(&mut v, &mut s);
    assert!(v.is_empty());
    assert_eq!(s, PrngState(1, 2, 3, 4));
}
