//! How a layout is shown: the colour of each field, and the notation in which
//! the decoded number is written.

use crate::model::BitType;
use vstd::prelude::*;

verus! {

impl BitType {
    /// The colour in which bits of this field are drawn, as a CSS colour.
    pub fn color(&self) -> (color: &'static str)
        ensures
            color@ == match *self {
                BitType::Sign => "#D72638"@,
                BitType::Exponent => "#00916E"@,
                BitType::Significand => "#F49D37"@,
            },
    {
        match self {
            Self::Sign => "#D72638",
            Self::Exponent => "#00916E",
            Self::Significand => "#F49D37",
        }
    }
}

/// The two ways a number is written.
#[derive(Debug, Copy, Clone, PartialEq, Eq, Structural)]
pub enum Notation {
    /// Plain decimal digits.
    Fixed,
    /// A decimal mantissa and a power of ten.
    Scientific,
}

/// The binary64 pattern of `1e-10`, the smallest magnitude above zero that is
/// written in fixed notation.
pub const FIXED_FROM_BITS: u64 = 0x3ddb_7cdf_d9d7_bdbb;

/// The binary64 pattern of `1e10`, the smallest magnitude that is too large
/// for fixed notation.
pub const FIXED_BELOW_BITS: u64 = 0x4202_a05f_2000_0000;

/// The binary64 pattern `bits` without its sign bit: the pattern of the
/// magnitude of the number.
pub open spec fn magnitude(bits: u64) -> int {
    bits as int % 0x8000_0000_0000_0000
}

/// The notation for the number with binary64 pattern `bits`.
///
/// Patterns of positive numbers are ordered as the numbers are, so that a
/// magnitude lies in `[1e-10, 1e10)` exactly when its pattern lies between
/// the patterns of the two bounds. Zero of either sign is written in fixed
/// notation too; the infinities and every pattern that is not a number lie
/// above all finite patterns and fall to scientific notation.
pub open spec fn notation_of(bits: u64) -> Notation {
    if magnitude(bits) == 0 || FIXED_FROM_BITS <= magnitude(bits) < FIXED_BELOW_BITS {
        Notation::Fixed
    } else {
        Notation::Scientific
    }
}

/// The notation in which the number with binary64 pattern `bits` is written.
pub fn notation(bits: u64) -> (notation: Notation)
    ensures
        notation == notation_of(bits),
{
    let abs_bits: u64 = bits & 0x7fff_ffff_ffff_ffff;
    assert(bits & 0x7fff_ffff_ffff_ffff == bits % 0x8000_0000_0000_0000) by (bit_vector);
    if abs_bits == 0 || (FIXED_FROM_BITS <= abs_bits && abs_bits < FIXED_BELOW_BITS) {
        Notation::Fixed
    } else {
        Notation::Scientific
    }
}

} // verus!
