//! Sequences of bits read as unsigned integers, most significant bit first.

use vstd::arithmetic::power2::{
    lemma2_to64, lemma2_to64_rest, lemma_pow2_pos, lemma_pow2_strictly_increases,
    lemma_pow2_unfold, pow2,
};
use vstd::prelude::*;

verus! {

/// What one bit adds to the integer it ends: one if set, zero if clear.
pub open spec fn bit_weight(bit: bool) -> nat {
    if bit {
        1
    } else {
        0
    }
}

/// The unsigned integer spelled by `bits`, the first bit being the most
/// significant. The empty sequence spells zero.
pub open spec fn unsigned_value(bits: Seq<bool>) -> nat
    decreases bits.len(),
{
    if bits.len() == 0 {
        0
    } else {
        2 * unsigned_value(bits.drop_last()) + bit_weight(bits.last())
    }
}

/// Every bit of `bits` is set. True of the empty sequence.
pub open spec fn all_set(bits: Seq<bool>) -> bool {
    forall|i: int| 0 <= i < bits.len() ==> bits[i]
}

/// Some bit of `bits` is set. False of the empty sequence.
pub open spec fn any_set(bits: Seq<bool>) -> bool {
    exists|i: int| 0 <= i < bits.len() && bits[i]
}

/// A sequence of `n` bits spells an integer below `2^n`.
pub proof fn lemma_unsigned_value_bound(bits: Seq<bool>)
    ensures
        unsigned_value(bits) < pow2(bits.len()),
    decreases bits.len(),
{
    if bits.len() == 0 {
        lemma_pow2_pos(0);
    } else {
        lemma_unsigned_value_bound(bits.drop_last());
        lemma_pow2_unfold(bits.len());
    }
}

/// A sequence spells zero exactly when none of its bits is set.
pub proof fn lemma_zero_iff_none_set(bits: Seq<bool>)
    ensures
        unsigned_value(bits) == 0 <==> !any_set(bits),
    decreases bits.len(),
{
    if bits.len() > 0 {
        let front = bits.drop_last();
        lemma_zero_iff_none_set(front);
        if any_set(front) {
            let i = choose|i: int| 0 <= i < front.len() && front[i];
            assert(bits[i]);
        }
        if any_set(bits) && !bits.last() {
            let i = choose|i: int| 0 <= i < bits.len() && bits[i];
            assert(front[i]);
        }
    }
}

/// A sequence of `n` bits spells `2^n - 1`, the largest integer of that
/// width, exactly when all of its bits are set.
pub proof fn lemma_max_iff_all_set(bits: Seq<bool>)
    ensures
        unsigned_value(bits) == pow2(bits.len()) - 1 <==> all_set(bits),
    decreases bits.len(),
{
    if bits.len() == 0 {
        lemma2_to64();
    } else {
        let front = bits.drop_last();
        lemma_max_iff_all_set(front);
        lemma_unsigned_value_bound(front);
        lemma_pow2_unfold(bits.len());
        if all_set(bits) {
            assert forall|i: int| 0 <= i < front.len() implies front[i] by {
                assert(bits[i]);
            }
        }
        if all_set(front) && bits.last() {
            assert forall|i: int| 0 <= i < bits.len() implies bits[i] by {
                if i < front.len() {
                    assert(front[i]);
                }
            }
        }
    }
}

/// Bits written after other bits: the earlier bits count `2^n` times their
/// own value, where `n` is the number of bits that follow.
pub proof fn lemma_unsigned_value_concat(high: Seq<bool>, low: Seq<bool>)
    ensures
        unsigned_value(high + low) == unsigned_value(high) * pow2(low.len()) + unsigned_value(low),
    decreases low.len(),
{
    let whole = high + low;
    let h = unsigned_value(high) as int;
    if low.len() == 0 {
        assert(whole =~= high);
        lemma2_to64();
        assert(h * 1 == h);
    } else {
        let front = low.drop_last();
        assert(whole.drop_last() =~= high + front);
        assert(whole.last() == low.last());
        lemma_unsigned_value_concat(high, front);
        lemma_pow2_unfold(low.len());
        let p = pow2(front.len()) as int;
        assert(2 * (h * p) == h * (2 * p)) by (nonlinear_arith);
    }
}

/// Clear bits written after other bits multiply the value by `2^n`, where
/// `n` is the number of clear bits.
pub proof fn lemma_unsigned_value_padded(bits: Seq<bool>, padding: nat)
    ensures
        unsigned_value(bits + Seq::new(padding, |i: int| false)) == unsigned_value(bits) * pow2(
            padding,
        ),
{
    let zeros = Seq::new(padding, |i: int| false);
    lemma_unsigned_value_concat(bits, zeros);
    lemma_zero_iff_none_set(zeros);
}

/// Whether every bit of `bits` is set.
pub fn is_all_set(bits: &[bool]) -> (all: bool)
    ensures
        all == all_set(bits@),
{
    let mut i: usize = 0;
    while i < bits.len()
        invariant
            i <= bits.len(),
            forall|j: int| 0 <= j < i ==> bits@[j],
        decreases bits.len() - i,
    {
        if !bits[i] {
            return false;
        }
        i += 1;
    }
    true
}

/// Whether some bit of `bits` is set.
pub fn is_any_set(bits: &[bool]) -> (any: bool)
    ensures
        any == any_set(bits@),
{
    let mut i: usize = 0;
    while i < bits.len()
        invariant
            i <= bits.len(),
            forall|j: int| 0 <= j < i ==> !bits@[j],
        decreases bits.len() - i,
    {
        if bits[i] {
            return true;
        }
        i += 1;
    }
    false
}

/// Reads up to sixty-four bits as an unsigned integer, the first bit being
/// the most significant.
pub fn to_unsigned(bits: &[bool]) -> (value: u64)
    requires
        bits@.len() <= 64,
    ensures
        value == unsigned_value(bits@),
{
    let mut value: u64 = 0;
    let mut i: usize = 0;
    while i < bits.len()
        invariant
            i <= bits.len(),
            bits@.len() <= 64,
            value == unsigned_value(bits@.take(i as int)),
        decreases bits.len() - i,
    {
        let low: u64 = if bits[i] {
            1
        } else {
            0
        };
        proof {
            let seen = bits@.take(i as int);
            let next = bits@.take(i + 1);
            assert(next.drop_last() == seen);
            assert(next.last() == bits@[i as int]);
            lemma_unsigned_value_bound(seen);
            lemma_unsigned_value_bound(next);
            if i < 63 {
                lemma_pow2_strictly_increases(i as nat, 63);
            }
            lemma2_to64_rest();
            assert(value < 0x8000_0000_0000_0000 && low <= 1 ==> (value << 1) | low == 2 * value
                + low) by (bit_vector);
        }
        value = (value << 1) | low;
        i += 1;
    }
    proof {
        assert(bits@.take(bits@.len() as int) == bits@);
    }
    value
}

} // verus!
