//! Packing a sequence of booleans into an unsigned integer, least
//! significant bit first.

use vstd::prelude::*;
use vstd::arithmetic::power2::{pow2, lemma_pow2_unfold, lemma_pow2_pos};

verus! {

/// The integer whose bit `i` is `bits[i]` (bit 0 is the least significant).
pub open spec fn pack_bits(bits: Seq<bool>) -> nat
    decreases bits.len(),
{
    if bits.len() == 0 {
        0
    } else {
        (if bits[0] { 1nat } else { 0nat }) + 2 * pack_bits(bits.drop_first())
    }
}

/// A packed value always fits in as many bits as were packed.
pub proof fn lemma_pack_bits_bound(bits: Seq<bool>)
    ensures
        pack_bits(bits) < pow2(bits.len()),
    decreases bits.len(),
{
    if bits.len() == 0 {
        assert(pow2(0) == 1) by {
            lemma_pow2_pos(0);
            vstd::arithmetic::power2::lemma_pow2(0);
            vstd::arithmetic::power::lemma_pow0(2);
        }
    } else {
        lemma_pack_bits_bound(bits.drop_first());
        lemma_pow2_unfold(bits.len());
    }
}

/// Packing one more bit onto the front of a suffix: the packed value of the
/// suffix starting at `p` is the bit at `p` plus twice the rest.
pub proof fn lemma_pack_bits_skip(bits: Seq<bool>, p: int)
    requires
        0 <= p < bits.len(),
    ensures
        pack_bits(bits.skip(p)) == (if bits[p] { 1nat } else { 0nat }) + 2 * pack_bits(
            bits.skip(p + 1),
        ),
{
    let s = bits.skip(p);
    assert(s.len() > 0);
    assert(s[0] == bits[p]);
    assert(s.drop_first() =~= bits.skip(p + 1));
}

/// There are more values in `e` bits than `e` itself.
pub proof fn lemma_pow2_exceeds(e: nat)
    ensures
        e < pow2(e),
    decreases e,
{
    if e == 0 {
        assert(pow2(0) == 1) by {
            vstd::arithmetic::power2::lemma_pow2(0);
            vstd::arithmetic::power::lemma_pow0(2);
        }
    } else {
        lemma_pow2_exceeds((e - 1) as nat);
        lemma_pow2_unfold(e);
    }
}

/// A sequence of unset bits packs to zero.
pub proof fn lemma_pack_bits_zero(bits: Seq<bool>)
    requires
        forall|i: int| 0 <= i < bits.len() ==> !bits[i],
    ensures
        pack_bits(bits) == 0,
    decreases bits.len(),
{
    if bits.len() > 0 {
        lemma_pack_bits_zero(bits.drop_first());
    }
}

} // verus!
