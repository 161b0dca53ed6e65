//! Reading a layout as a number.
//!
//! A layout of narrower fields is widened to IEEE 754 binary64: the exponent
//! is rebiased and the significand bits move to the top of the binary64
//! significand field. The number is handed out as its 64-bit pattern.

use crate::bits::{
    all_set, any_set, bit_weight, is_all_set, is_any_set, lemma_max_iff_all_set,
    lemma_unsigned_value_bound, lemma_unsigned_value_concat, lemma_unsigned_value_padded,
    lemma_zero_iff_none_set, to_unsigned, unsigned_value,
};
use crate::model::{BitField, Model, BINARY_64_EXPONENT_BITS, BINARY_64_SIGNIFICAND_BITS};
use vstd::arithmetic::mul::{lemma_mul_is_commutative, lemma_mul_strict_inequality};
use vstd::arithmetic::power2::{
    lemma2_to64, lemma2_to64_rest, lemma_pow2_adds, lemma_pow2_pos,
    lemma_pow2_strictly_increases, lemma_pow2_unfold, pow2,
};
use vstd::bits::lemma_u64_shl_is_mul;
use vstd::prelude::*;

verus! {

/// The exponent bias of IEEE 754 binary64.
pub const BINARY_64_BIAS: u64 = 1023;

/// The binary64 pattern handed out for every layout that is not a number:
/// exponent field all ones, top significand bit set, sign clear.
pub const NAN_BITS: u64 = 0x7ff8_0000_0000_0000;

/// The binary64 pattern of positive infinity.
pub const INFINITY_BITS: u64 = 0x7ff0_0000_0000_0000;

/// The binary64 pattern of negative infinity.
pub const NEG_INFINITY_BITS: u64 = 0xfff0_0000_0000_0000;

/// The exponent bias of a format with `exponent_len` exponent bits:
/// `2^(exponent_len - 1) - 1`.
pub open spec fn field_bias(exponent_len: nat) -> int
    recommends
        exponent_len >= 1,
{
    pow2((exponent_len - 1) as nat) - 1
}

/// The binary64 exponent field for a raw exponent `raw` read from a field of
/// `exponent_len` bits. A nonzero exponent is rebiased; a zero exponent stays
/// zero.
pub open spec fn widened_exponent(raw: nat, exponent_len: nat) -> int {
    if raw == 0 {
        0
    } else {
        raw - field_bias(exponent_len) + BINARY_64_BIAS
    }
}

/// The binary64 significand field for a raw significand `raw` read from a
/// field of `significand_len` bits: the bits move to the top of the
/// fifty-two, and zeros fill the rest.
pub open spec fn widened_significand(raw: nat, significand_len: nat) -> nat
    recommends
        significand_len <= BINARY_64_SIGNIFICAND_BITS,
{
    raw * pow2((BINARY_64_SIGNIFICAND_BITS - significand_len) as nat)
}

/// The binary64 pattern with the given sign, exponent field and significand
/// field.
pub open spec fn packed(sign: bool, exponent: int, significand: int) -> int {
    bit_weight(sign) * pow2(63) + exponent * pow2(52) + significand
}

/// The binary64 pattern of the number that `field` stands for.
///
/// An exponent field of all ones is infinity where the significand is zero,
/// and not a number otherwise. Any other layout is packed from its sign, its
/// widened exponent and its widened significand.
pub open spec fn decoded(field: BitField) -> int {
    let exponent = unsigned_value(field.exponent);
    let significand = unsigned_value(field.significand);
    if exponent == pow2(field.exponent.len()) - 1 {
        if significand != 0 {
            NAN_BITS as int
        } else if field.sign {
            NEG_INFINITY_BITS as int
        } else {
            INFINITY_BITS as int
        }
    } else {
        packed(
            field.sign,
            widened_exponent(exponent, field.exponent.len()),
            widened_significand(significand, field.significand.len()) as int,
        )
    }
}

/// A significand of `len` bits, moved to the top of the fifty-two, stays
/// below `2^52`.
pub proof fn lemma_widened_significand_bound(raw: nat, len: nat)
    requires
        len <= BINARY_64_SIGNIFICAND_BITS,
        raw < pow2(len),
    ensures
        widened_significand(raw, len) < pow2(52),
{
    let shift = (BINARY_64_SIGNIFICAND_BITS - len) as nat;
    lemma_pow2_pos(shift);
    lemma_pow2_adds(len, shift);
    lemma_mul_strict_inequality(raw as int, pow2(len) as int, pow2(shift) as int);
}

/// Widening keeps the fraction that the significand stands for: the widened
/// field is to `2^52` as the raw significand is to `2^significand_len`.
pub proof fn lemma_widened_significand_keeps_fraction(raw: nat, len: nat)
    requires
        len <= BINARY_64_SIGNIFICAND_BITS,
    ensures
        widened_significand(raw, len) * pow2(len) == raw * pow2(52),
{
    let shift = (BINARY_64_SIGNIFICAND_BITS - len) as nat;
    lemma_pow2_adds(shift, len);
    assert(raw * pow2(shift) * pow2(len) == raw * (pow2(shift) * pow2(len)))
        by (nonlinear_arith);
}

/// The widened exponent of a layout whose exponent field is not all ones
/// lies below 2047, the all-ones exponent of binary64; it is zero only for a
/// zero exponent.
pub proof fn lemma_widened_exponent_bound(raw: nat, len: nat)
    requires
        1 <= len <= BINARY_64_EXPONENT_BITS,
        raw < pow2(len) - 1,
    ensures
        0 <= widened_exponent(raw, len) < 2047,
        widened_exponent(raw, len) == 0 <==> raw == 0,
        0 <= field_bias(len) <= BINARY_64_BIAS,
{
    lemma_pow2_unfold(len);
    lemma_pow2_pos((len - 1) as nat);
    lemma2_to64();
    if len < 11 {
        lemma_pow2_strictly_increases((len - 1) as nat, 10);
    }
}

/// Every well-formed layout decodes to a pattern of sixty-four bits.
pub proof fn lemma_decoded_fits(field: BitField)
    requires
        field.well_formed(),
    ensures
        0 <= decoded(field) < pow2(64),
{
    let exponent = unsigned_value(field.exponent);
    let significand = unsigned_value(field.significand);
    lemma_unsigned_value_bound(field.exponent);
    lemma_unsigned_value_bound(field.significand);
    lemma2_to64();
    lemma2_to64_rest();
    if exponent != pow2(field.exponent.len()) - 1 {
        lemma_widened_exponent_bound(exponent, field.exponent.len());
        lemma_widened_significand_bound(significand, field.significand.len());
    }
}

/// A layout with every bit clear is positive zero, whatever its widths.
pub proof fn lemma_cleared_is_positive_zero(exponent_len: nat, significand_len: nat)
    requires
        BitField::cleared(exponent_len, significand_len).well_formed(),
    ensures
        decoded(BitField::cleared(exponent_len, significand_len)) == 0,
{
    let field = BitField::cleared(exponent_len, significand_len);
    lemma_zero_iff_none_set(field.exponent);
    lemma_zero_iff_none_set(field.significand);
    lemma_pow2_unfold(exponent_len);
    lemma_pow2_pos((exponent_len - 1) as nat);
}

/// A layout with the sign bit set and every other bit clear is negative
/// zero, whatever its widths.
pub proof fn lemma_sign_alone_is_negative_zero(exponent_len: nat, significand_len: nat)
    requires
        BitField::cleared(exponent_len, significand_len).well_formed(),
    ensures
        decoded(BitField::cleared(exponent_len, significand_len).toggled(0))
            == 0x8000_0000_0000_0000,
{
    let field = BitField::cleared(exponent_len, significand_len).toggled(0);
    lemma_zero_iff_none_set(field.exponent);
    lemma_zero_iff_none_set(field.significand);
    lemma_pow2_unfold(exponent_len);
    lemma_pow2_pos((exponent_len - 1) as nat);
    lemma2_to64_rest();
}

/// A layout whose exponent bits are all set and whose significand bits are
/// all clear is infinity, with the sign of the sign bit.
pub proof fn lemma_all_ones_exponent_is_infinity(field: BitField)
    requires
        all_set(field.exponent),
        !any_set(field.significand),
    ensures
        field.sign ==> decoded(field) == NEG_INFINITY_BITS,
        !field.sign ==> decoded(field) == INFINITY_BITS,
{
    lemma_max_iff_all_set(field.exponent);
    lemma_zero_iff_none_set(field.significand);
}

/// A layout whose exponent bits are all set and that has a significand bit
/// set is not a number, whatever the sign bit.
pub proof fn lemma_all_ones_exponent_is_nan(field: BitField)
    requires
        all_set(field.exponent),
        any_set(field.significand),
    ensures
        decoded(field) == NAN_BITS,
{
    lemma_max_iff_all_set(field.exponent);
    lemma_zero_iff_none_set(field.significand);
}

/// A layout is decoded as infinity or as not a number only where all its
/// exponent bits are set: the pattern of every other layout, without its top
/// bit, lies below that of infinity, and its top bit is the sign bit.
pub proof fn lemma_finite_unless_all_ones(field: BitField)
    requires
        field.well_formed(),
        !all_set(field.exponent),
    ensures
        decoded(field) % (pow2(63) as int) < INFINITY_BITS,
        decoded(field) >= pow2(63) <==> field.sign,
{
    let exponent = unsigned_value(field.exponent);
    let significand = unsigned_value(field.significand);
    lemma_max_iff_all_set(field.exponent);
    lemma_unsigned_value_bound(field.exponent);
    lemma_unsigned_value_bound(field.significand);
    lemma_widened_exponent_bound(exponent, field.exponent.len());
    lemma_widened_significand_bound(significand, field.significand.len());
    lemma2_to64_rest();
}

/// At the widths of binary64 nothing is widened: a layout of eleven exponent
/// bits and fifty-two significand bits that is a number or an infinity
/// decodes to its own sixty-four bits, read in flat order.
pub proof fn lemma_binary64_decodes_to_itself(field: BitField)
    requires
        field.exponent.len() == BINARY_64_EXPONENT_BITS,
        field.significand.len() == BINARY_64_SIGNIFICAND_BITS,
        !(all_set(field.exponent) && any_set(field.significand)),
    ensures
        decoded(field) == unsigned_value(field.flat()),
{
    let sign = seq![field.sign];
    let s = bit_weight(field.sign) as int;
    let e = unsigned_value(field.exponent) as int;
    let m = unsigned_value(field.significand) as int;
    assert(unsigned_value(sign) == s) by {
        assert(sign.drop_last() =~= Seq::<bool>::empty());
        assert(unsigned_value(sign.drop_last()) == 0);
    }
    lemma_unsigned_value_concat(sign, field.exponent);
    lemma_unsigned_value_concat(sign + field.exponent, field.significand);
    lemma_max_iff_all_set(field.exponent);
    lemma_zero_iff_none_set(field.significand);
    lemma2_to64();
    lemma2_to64_rest();
    assert(unsigned_value(field.flat()) == (s * 0x800 + e) * 0x10_0000_0000_0000 + m);
    assert((s * 0x800 + e) * 0x10_0000_0000_0000 == s * 0x8000_0000_0000_0000 + e
        * 0x10_0000_0000_0000) by (nonlinear_arith);
    if e != 0x7ff {
        assert(widened_exponent(e as nat, field.exponent.len()) == e);
        assert(widened_significand(m as nat, field.significand.len()) == m * 1);
        assert(decoded(field) == s * pow2(63) + e * pow2(52) + m);
    }
}

/// Widening the significand field never changes the number: the new bits
/// are clear and stand below the old ones.
pub proof fn lemma_wider_significand_same_number(field: BitField, len: nat)
    requires
        field.significand.len() <= len <= BINARY_64_SIGNIFICAND_BITS,
    ensures
        decoded(field.with_significand_len(len)) == decoded(field),
{
    let old_len = field.significand.len();
    let padding = (len - old_len) as nat;
    let raw = unsigned_value(field.significand);
    let wide = field.with_significand_len(len);
    assert(wide.significand =~= field.significand + Seq::new(padding, |i: int| false));
    lemma_unsigned_value_padded(field.significand, padding);
    lemma_pow2_pos(padding);
    lemma_pow2_adds(padding, (BINARY_64_SIGNIFICAND_BITS - len) as nat);
    assert(raw * pow2(padding) == 0 <==> raw == 0) by (nonlinear_arith)
        requires
            pow2(padding) > 0,
    ;
    assert(raw * pow2(padding) * pow2((BINARY_64_SIGNIFICAND_BITS - len) as nat) == raw * (pow2(
        padding,
    ) * pow2((BINARY_64_SIGNIFICAND_BITS - len) as nat))) by (nonlinear_arith);
}

impl Model {
    /// The binary64 pattern of the number that the layout stands for.
    pub fn value(&self) -> (bits: u64)
        requires
            self@.well_formed(),
        ensures
            bits == decoded(self@),
    {
        let exponent_bits = self.exponent_bits();
        let significand_bits = self.significand_bits();
        let all: bool = is_all_set(exponent_bits);
        let normal: bool = is_any_set(exponent_bits);
        proof {
            lemma_max_iff_all_set(self@.exponent);
            lemma_zero_iff_none_set(self@.exponent);
            lemma_zero_iff_none_set(self@.significand);
            lemma_unsigned_value_bound(self@.exponent);
            lemma_unsigned_value_bound(self@.significand);
        }
        if all {
            if is_any_set(significand_bits) {
                NAN_BITS
            } else if self.sign_bit() {
                NEG_INFINITY_BITS
            } else {
                INFINITY_BITS
            }
        } else {
            let exponent_len: u64 = exponent_bits.len() as u64;
            let significand_len: u64 = significand_bits.len() as u64;
            proof {
                lemma_widened_exponent_bound(
                    unsigned_value(self@.exponent),
                    self@.exponent.len(),
                );
                lemma_widened_significand_bound(
                    unsigned_value(self@.significand),
                    self@.significand.len(),
                );
                lemma2_to64_rest();
                lemma_u64_shl_is_mul(1, (exponent_len - 1) as u64);
            }
            let bias: u64 = (1u64 << (exponent_len - 1)) - 1;
            let exp: u64 = to_unsigned(exponent_bits);
            let significand: u64 = to_unsigned(significand_bits);
            let sign: u64 = if self.sign_bit() {
                1
            } else {
                0
            };
            let exponent_field: u64 = if normal {
                exp + (BINARY_64_BIAS - bias)
            } else {
                0
            };
            let shift: u64 = BINARY_64_SIGNIFICAND_BITS as u64 - significand_len;
            proof {
                lemma_u64_shl_is_mul(significand, shift);
                let significand_field: u64 = significand << shift;
                assert(sign <= 1 && exponent_field < 2048 && significand_field
                    < 0x10_0000_0000_0000 ==> (sign << 63) | (exponent_field << 52)
                    | significand_field == sign * 0x8000_0000_0000_0000 + exponent_field
                    * 0x10_0000_0000_0000 + significand_field) by (bit_vector);
            }
            (sign << 63) | (exponent_field << 52) | (significand << shift)
        }
    }
}

} // verus!
