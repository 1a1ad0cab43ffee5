//! The byte shuffle applied to the first payload of a tunnel, and its inverse.

use vstd::prelude::*;

verus! {

/// Number of even positions in a sequence of length `n`.
pub open spec fn evens(n: nat) -> int {
    (n as int + 1) / 2
}

/// The shuffle: every byte at an even position, in order, then every byte
/// at an odd position, in order.
pub open spec fn spec_encode(s: Seq<u8>) -> Seq<u8> {
    Seq::new(
        s.len(),
        |j: int|
            if j < evens(s.len()) {
                s[2 * j]
            } else {
                s[2 * (j - evens(s.len())) + 1]
            },
    )
}

/// The inverse shuffle: the first half goes back to the even positions and
/// the rest to the odd positions.
pub open spec fn spec_decode(s: Seq<u8>) -> Seq<u8> {
    Seq::new(
        s.len(),
        |i: int|
            if i % 2 == 0 {
                s[i / 2]
            } else {
                s[evens(s.len()) + i / 2]
            },
    )
}

/// Calls `sni_shuffle::encode`, whose source writes the bytes at even
/// positions followed by those at odd positions.
#[verifier::external_body]
pub(crate) fn shuffle_encode(input: &[u8]) -> (r: Vec<u8>)
    ensures
        r@ == spec_encode(input@),
{
    sni_shuffle::encode(input)
}

/// Calls `sni_shuffle::decode`, whose source puts the first half of its
/// input back at the even positions and the rest at the odd positions.
#[verifier::external_body]
pub(crate) fn shuffle_decode(input: &[u8]) -> (r: Vec<u8>)
    ensures
        r@ == spec_decode(input@),
{
    sni_shuffle::decode(input)
}

/// Unshuffling a shuffled sequence gives the sequence back.
pub proof fn lemma_decode_encode(s: Seq<u8>)
    ensures
        spec_decode(spec_encode(s)) == s,
{
    let e = spec_encode(s);
    assert forall|i: int| 0 <= i < s.len() implies #[trigger] spec_decode(e)[i] == s[i] by {
        if i % 2 == 0 {
            assert(i / 2 < evens(s.len()));
            assert(2 * (i / 2) == i);
        } else {
            assert(evens(s.len()) + i / 2 >= evens(s.len()));
            assert(evens(s.len()) + i / 2 < s.len());
            assert(2 * (i / 2) + 1 == i);
        }
    }
    assert(spec_decode(e) =~= s);
}

/// Shuffling an unshuffled sequence gives the sequence back.
pub proof fn lemma_encode_decode(s: Seq<u8>)
    ensures
        spec_encode(spec_decode(s)) == s,
{
    let d = spec_decode(s);
    assert forall|j: int| 0 <= j < s.len() implies #[trigger] spec_encode(d)[j] == s[j] by {
        let h = evens(s.len());
        if j < h {
            assert((2 * j) % 2 == 0);
            assert((2 * j) / 2 == j);
        } else {
            let i = 2 * (j - h) + 1;
            assert(i % 2 == 1);
            assert(i / 2 == j - h);
        }
    }
    assert(spec_encode(d) =~= s);
}

} // verus!
