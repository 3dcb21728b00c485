//! The visiting order of hiding spots: a shuffle of `0..n` driven by the
//! generator.
//!
//! Every step draws a position from the whole range `0..n`, not from the
//! shrinking tail that a uniform shuffle would use. The order is therefore
//! not uniformly distributed, but it is a function of the length and the
//! generator state alone, and it is always a rearrangement.

use vstd::prelude::*;
use crate::prng::{next_output, next_state, xoshiro256pp, PrngState};

verus! {

/// There are no hiding spots to order.
#[derive(Clone, Copy, Debug, PartialEq, Eq, Structural)]
pub struct PermutationError;

/// `v` with the entries at positions `i` and `j` exchanged.
pub open spec fn swapped(v: Seq<u32>, i: int, j: int) -> Seq<u32> {
    v.update(i, v[j]).update(j, v[i])
}

/// The position that a draw from state `s` selects in a sequence of
/// length `len`.
pub open spec fn drawn_position(s: PrngState, len: nat) -> int {
    next_output(s) as int % len as int
}

/// The sequence and generator state reached from `(v, s)` by carrying out the
/// shuffle's steps `i, i + 1, ..., v.len() - 1`: step `k` draws one word and
/// exchanges position `k` with the drawn position.
pub open spec fn shuffled_from(v: Seq<u32>, s: PrngState, i: nat) -> (Seq<u32>, PrngState)
    decreases v.len() - i,
{
    if i >= v.len() {
        (v, s)
    } else {
        shuffled_from(swapped(v, i as int, drawn_position(s, v.len())), next_state(s), i + 1)
    }
}

/// The sequence `0, 1, ..., n - 1`.
pub open spec fn ascending(n: nat) -> Seq<u32> {
    Seq::new(n, |i: int| i as u32)
}

/// The visiting order of `n` hiding spots under generator state `s`.
pub open spec fn permutation_of(n: nat, s: PrngState) -> Seq<u32> {
    shuffled_from(ascending(n), s, 0).0
}

/// The generator state left behind once the order of `n` hiding spots has
/// been built from state `s`.
pub open spec fn state_after_permutation(n: nat, s: PrngState) -> PrngState {
    shuffled_from(ascending(n), s, 0).1
}

/// `p` is a bijection on `0..p.len()`: every entry lies in the range, no
/// value occurs twice, and every value of the range occurs.
pub open spec fn is_permutation(p: Seq<u32>) -> bool {
    &&& forall|i: int| 0 <= i < p.len() ==> (#[trigger] p[i]) < p.len()
    &&& forall|i: int, j: int| 0 <= i < j < p.len() ==> #[trigger] p[i] != #[trigger] p[j]
    &&& forall|k: u32| k < p.len() ==> #[trigger] p.contains(k)
}

/// Exchanging two positions of a bijection leaves a bijection.
pub proof fn lemma_swapped_is_permutation(p: Seq<u32>, a: int, b: int)
    requires
        is_permutation(p),
        0 <= a < p.len(),
        0 <= b < p.len(),
    ensures
        is_permutation(swapped(p, a, b)),
{
    let q = swapped(p, a, b);
    assert forall|k: u32| k < q.len() implies #[trigger] q.contains(k) by {
        assert(p.contains(k));
        let i = choose|i: int| 0 <= i < p.len() && p[i] == k;
        if i == a {
            assert(q[b] == k);
        } else if i == b {
            assert(q[a] == k);
        } else {
            assert(q[i] == k);
        }
    }
    assert forall|i: int, j: int| 0 <= i < j < q.len() implies #[trigger] q[i] != #[trigger] q[j] by {
        let pi = if i == a { b } else if i == b { a } else { i };
        let pj = if j == a { b } else if j == b { a } else { j };
        assert(q[i] == p[pi]);
        assert(q[j] == p[pj]);
        if pi < pj {
            assert(p[pi] != p[pj]);
        } else {
            assert(p[pj] != p[pi]);
        }
    }
}

/// The sequence `0, 1, ..., n - 1` is a bijection on `0..n`.
pub proof fn lemma_ascending_is_permutation(n: nat)
    requires
        n <= u32::MAX,
    ensures
        is_permutation(ascending(n)),
{
    let p = ascending(n);
    assert forall|k: u32| k < p.len() implies #[trigger] p.contains(k) by {
        assert(p[k as int] == k);
    }
}

/// The shuffle's steps keep the length, and turn a bijection into a
/// bijection, whatever the generator draws.
pub proof fn lemma_shuffled_from_is_permutation(v: Seq<u32>, s: PrngState, i: nat)
    ensures
        shuffled_from(v, s, i).0.len() == v.len(),
        is_permutation(v) ==> is_permutation(shuffled_from(v, s, i).0),
    decreases v.len() - i,
{
    if i < v.len() {
        let j = drawn_position(s, v.len());
        if is_permutation(v) {
            lemma_swapped_is_permutation(v, i as int, j);
        }
        lemma_shuffled_from_is_permutation(swapped(v, i as int, j), next_state(s), i + 1);
    }
}

/// The visiting order of `n` hiding spots is a bijection on `0..n`, for
/// every generator state.
pub proof fn lemma_permutation_of_is_permutation(n: nat, s: PrngState)
    requires
        n <= u32::MAX,
    ensures
        permutation_of(n, s).len() == n,
        is_permutation(permutation_of(n, s)),
{
    lemma_ascending_is_permutation(n);
    lemma_shuffled_from_is_permutation(ascending(n), s, 0);
}

/// Shuffles `v` in place: for each position in turn, draws one word, reduces
/// it modulo the length and exchanges the position with the drawn one.
pub fn shuffle(v: &mut Vec<u32>, prng_state: &mut PrngState)
    ensures
        final(v)@ == shuffled_from(old(v)@, *old(prng_state), 0).0,
        *final(prng_state) == shuffled_from(old(v)@, *old(prng_state), 0).1,
{
    let len: usize = v.len();
    let mut i: usize = 0;
    while i < len
        invariant
            i <= len,
            v@.len() == len,
            shuffled_from(v@, *prng_state, i as nat) == shuffled_from(
                old(v)@,
                *old(prng_state),
                0,
            ),
        decreases len - i,
    {
        let r: u64 = xoshiro256pp(prng_state);
        let j: usize = (r % (len as u64)) as usize;
        let a: u32 = v[i];
        let b: u32 = v[j];
        v[i] = b;
        v[j] = a;
        i += 1;
    }
}

/// Builds the visiting order of `n` hiding spots, advancing the generator by
/// `n` draws. With no hiding spots there is nothing to order: the call fails
/// and the generator is left as it was.
pub fn build_permutation(n: u32, state: &mut PrngState) -> (r: Result<Vec<u32>, PermutationError>)
    ensures
        n == 0 ==> r is Err && *final(state) == *old(state),
        n > 0 ==> r is Ok && r->Ok_0@ == permutation_of(n as nat, *old(state)) && *final(state)
            == state_after_permutation(n as nat, *old(state)),
        r is Ok ==> r->Ok_0@.len() == n && is_permutation(r->Ok_0@),
{
    if n == 0 {
        return Err(PermutationError);
    }
    let mut v: Vec<u32> = Vec::new();
    let mut k: u32 = 0;
    while k < n
        invariant
            k <= n,
            v@ == ascending(k as nat),
        decreases n - k,
    {
        v.push(k);
        k += 1;
    }
    proof {
        lemma_permutation_of_is_permutation(n as nat, *state);
    }
    shuffle(&mut v, state);
    Ok(v)
}

} // verus!
