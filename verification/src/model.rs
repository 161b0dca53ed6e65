//! The bit layout: one sign bit, an exponent field and a significand field,
//! each field a run of bits with the most significant bit first.

use vstd::prelude::*;

verus! {

/// Stored significand bits of IEEE 754 binary64, and the widest significand
/// field a layout can have.
pub const BINARY_64_SIGNIFICAND_BITS: usize = 52;

/// Exponent bits of IEEE 754 binary64, and the widest exponent field a layout
/// can have.
pub const BINARY_64_EXPONENT_BITS: usize = 11;

/// The three fields of a layout.
#[derive(Debug, Copy, Clone, PartialEq, Eq, Structural)]
pub enum BitType {
    Sign,
    Exponent,
    Significand,
}

/// `bits` cut or padded to `len` bits: the bits below `len` keep their
/// values, and the bits from the old length on are clear.
pub open spec fn resized(bits: Seq<bool>, len: nat) -> Seq<bool> {
    Seq::new(len, |i: int| i < bits.len() && bits[i])
}

/// `bits` with the bit at `index` flipped.
pub open spec fn flipped(bits: Seq<bool>, index: int) -> Seq<bool>
    recommends
        0 <= index < bits.len(),
{
    bits.update(index, !bits[index])
}

/// What a `Model` holds, as mathematical sequences.
pub struct BitField {
    pub sign: bool,
    pub exponent: Seq<bool>,
    pub significand: Seq<bool>,
}

impl BitField {
    /// Both fields have a width within bounds: one to eleven exponent bits,
    /// one to fifty-two significand bits.
    pub open spec fn well_formed(self) -> bool {
        &&& 1 <= self.exponent.len() <= BINARY_64_EXPONENT_BITS
        &&& 1 <= self.significand.len() <= BINARY_64_SIGNIFICAND_BITS
    }

    /// The layout of the given widths with every bit clear.
    pub open spec fn cleared(exponent_len: nat, significand_len: nat) -> BitField {
        BitField {
            sign: false,
            exponent: Seq::new(exponent_len, |i: int| false),
            significand: Seq::new(significand_len, |i: int| false),
        }
    }

    /// All bits in flat order: the sign bit, then the exponent bits, then the
    /// significand bits.
    pub open spec fn flat(self) -> Seq<bool> {
        seq![self.sign] + self.exponent + self.significand
    }

    /// The field that flat index `flat_index` falls in, if it addresses a bit.
    pub open spec fn bit_type(self, flat_index: int) -> Option<BitType> {
        if flat_index < 0 {
            None
        } else if flat_index == 0 {
            Some(BitType::Sign)
        } else if flat_index < 1 + self.exponent.len() {
            Some(BitType::Exponent)
        } else if flat_index < 1 + self.exponent.len() + self.significand.len() {
            Some(BitType::Significand)
        } else {
            None
        }
    }

    /// The layout with the exponent field cut or padded to `len` bits.
    pub open spec fn with_exponent_len(self, len: nat) -> BitField {
        BitField { exponent: resized(self.exponent, len), ..self }
    }

    /// The layout with the significand field cut or padded to `len` bits.
    pub open spec fn with_significand_len(self, len: nat) -> BitField {
        BitField { significand: resized(self.significand, len), ..self }
    }

    /// The layout with the bit at `flat_index` flipped; the same layout where
    /// `flat_index` addresses no bit.
    pub open spec fn toggled(self, flat_index: int) -> BitField {
        match self.bit_type(flat_index) {
            Some(BitType::Sign) => BitField { sign: !self.sign, ..self },
            Some(BitType::Exponent) => BitField {
                exponent: flipped(self.exponent, flat_index - 1),
                ..self
            },
            Some(BitType::Significand) => BitField {
                significand: flipped(self.significand, flat_index - 1 - self.exponent.len()),
                ..self
            },
            None => self,
        }
    }
}

/// Resizing a run of bits to `short` bits and then to `long` bits keeps a
/// bit only below both the first width and the old length; every other bit
/// of the result is clear, whatever stood there before.
pub proof fn lemma_resized_twice(bits: Seq<bool>, short: nat, long: nat)
    ensures
        resized(resized(bits, short), long).len() == long,
        forall|i: int|
            0 <= i < long ==> resized(resized(bits, short), long)[i] == (i < short && i
                < bits.len() && bits[i]),
{
}

/// Setting a width to the width a field already has changes nothing.
pub proof fn lemma_resized_to_same_len(bits: Seq<bool>)
    ensures
        resized(bits, bits.len()) == bits,
{
    assert(resized(bits, bits.len()) =~= bits);
}

/// Narrowing the exponent field and widening it again keeps the bits below
/// the narrow width and clears the bits that were cut off; the sign and the
/// significand are untouched.
pub proof fn lemma_exponent_narrowed_then_widened(field: BitField, short: nat, long: nat)
    requires
        short <= field.exponent.len(),
        short <= long,
    ensures
        field.with_exponent_len(short).with_exponent_len(long).exponent.len() == long,
        forall|i: int|
            0 <= i < long ==> field.with_exponent_len(short).with_exponent_len(long).exponent[i]
                == (i < short && field.exponent[i]),
        field.with_exponent_len(short).with_exponent_len(long).sign == field.sign,
        field.with_exponent_len(short).with_exponent_len(long).significand == field.significand,
{
    lemma_resized_twice(field.exponent, short, long);
}

/// Narrowing the significand field and widening it again keeps the bits
/// below the narrow width and clears the bits that were cut off; the sign
/// and the exponent are untouched.
pub proof fn lemma_significand_narrowed_then_widened(field: BitField, short: nat, long: nat)
    requires
        short <= field.significand.len(),
        short <= long,
    ensures
        field.with_significand_len(short).with_significand_len(long).significand.len() == long,
        forall|i: int|
            0 <= i < long ==> field.with_significand_len(short).with_significand_len(
                long,
            ).significand[i] == (i < short && field.significand[i]),
        field.with_significand_len(short).with_significand_len(long).sign == field.sign,
        field.with_significand_len(short).with_significand_len(long).exponent == field.exponent,
{
    lemma_resized_twice(field.significand, short, long);
}

/// Flipping the same bit twice gives back the layout, for every index.
pub proof fn lemma_toggled_twice(field: BitField, flat_index: int)
    ensures
        field.toggled(flat_index).toggled(flat_index) == field,
{
    let once = field.toggled(flat_index);
    let twice = once.toggled(flat_index);
    assert(once.bit_type(flat_index) == field.bit_type(flat_index));
    assert(twice.exponent =~= field.exponent);
    assert(twice.significand =~= field.significand);
}

/// An index past the last bit flips nothing.
pub proof fn lemma_toggled_out_of_range(field: BitField, flat_index: int)
    requires
        flat_index >= field.flat().len(),
    ensures
        field.toggled(flat_index) == field,
{
}

/// Flipping a bit of the layout flips the bit at that index of the flat
/// order, and no other.
pub proof fn lemma_toggled_flat(field: BitField, flat_index: int)
    requires
        0 <= flat_index < field.flat().len(),
    ensures
        field.toggled(flat_index).flat() == flipped(field.flat(), flat_index),
{
    assert(field.toggled(flat_index).flat() =~= flipped(field.flat(), flat_index));
}

/// Toggling and resizing keep the widths within bounds.
pub proof fn lemma_well_formed_kept(field: BitField, flat_index: int, len: nat)
    requires
        field.well_formed(),
    ensures
        field.toggled(flat_index).well_formed(),
        1 <= len <= BINARY_64_EXPONENT_BITS ==> field.with_exponent_len(len).well_formed(),
        1 <= len <= BINARY_64_SIGNIFICAND_BITS ==> field.with_significand_len(len).well_formed(),
{
}

/// A floating-point bit layout with adjustable field widths.
///
/// A model is well formed when its view is: the exponent field holds one to
/// eleven bits and the significand field one to fifty-two. The constructors
/// give well-formed models and every method keeps them so.
pub struct Model {
    sign_bit: bool,
    exponent_bits: Vec<bool>,
    significand_bits: Vec<bool>,
}

impl View for Model {
    type V = BitField;

    closed spec fn view(&self) -> BitField {
        BitField {
            sign: self.sign_bit,
            exponent: self.exponent_bits@,
            significand: self.significand_bits@,
        }
    }
}

impl Default for Model {
    /// The layout of binary64, all bits clear.
    fn default() -> (model: Model)
        ensures
            model@ == BitField::cleared(
                BINARY_64_EXPONENT_BITS as nat,
                BINARY_64_SIGNIFICAND_BITS as nat,
            ),
            model@.well_formed(),
    {
        Model::new()
    }
}

impl Model {
    /// The layout of binary64: eleven exponent bits and fifty-two significand
    /// bits, all clear.
    pub fn new() -> (model: Model)
        ensures
            model@ == BitField::cleared(
                BINARY_64_EXPONENT_BITS as nat,
                BINARY_64_SIGNIFICAND_BITS as nat,
            ),
            model@.well_formed(),
    {
        Model::with_widths(BINARY_64_EXPONENT_BITS, BINARY_64_SIGNIFICAND_BITS)
    }

    /// The layout of the given widths with every bit clear.
    pub fn with_widths(exponent_len: usize, significand_len: usize) -> (model: Model)
        requires
            1 <= exponent_len <= BINARY_64_EXPONENT_BITS,
            1 <= significand_len <= BINARY_64_SIGNIFICAND_BITS,
        ensures
            model@ == BitField::cleared(exponent_len as nat, significand_len as nat),
            model@.well_formed(),
    {
        let model = Model {
            sign_bit: false,
            exponent_bits: vec![false; exponent_len],
            significand_bits: vec![false; significand_len],
        };
        assert(model@.exponent =~= BitField::cleared(
            exponent_len as nat,
            significand_len as nat,
        ).exponent);
        assert(model@.significand =~= BitField::cleared(
            exponent_len as nat,
            significand_len as nat,
        ).significand);
        model
    }

    /// Whether both widths are within bounds.
    pub fn is_well_formed(&self) -> (ok: bool)
        ensures
            ok == self@.well_formed(),
    {
        let exponent_len: usize = self.exponent_bits.len();
        let significand_len: usize = self.significand_bits.len();
        1 <= exponent_len && exponent_len <= BINARY_64_EXPONENT_BITS && 1 <= significand_len
            && significand_len <= BINARY_64_SIGNIFICAND_BITS
    }

    /// The sign bit.
    pub fn sign_bit(&self) -> (bit: bool)
        ensures
            bit == self@.sign,
    {
        self.sign_bit
    }

    /// The exponent bits, most significant first.
    pub fn exponent_bits(&self) -> (bits: &[bool])
        ensures
            bits@ == self@.exponent,
    {
        self.exponent_bits.as_slice()
    }

    /// The significand bits, most significant first.
    pub fn significand_bits(&self) -> (bits: &[bool])
        ensures
            bits@ == self@.significand,
    {
        self.significand_bits.as_slice()
    }

    /// Every bit with the field it belongs to, in flat order: the sign bit,
    /// then the exponent bits, then the significand bits.
    pub fn flat_bits(&self) -> (bits: Vec<(BitType, bool)>)
        ensures
            bits@.len() == self@.flat().len(),
            forall|i: int|
                0 <= i < bits@.len() ==> Some(bits@[i].0) == self@.bit_type(i) && bits@[i].1
                    == self@.flat()[i],
    {
        let mut bits: Vec<(BitType, bool)> = Vec::new();
        bits.push((BitType::Sign, self.sign_bit));
        let mut i: usize = 0;
        while i < self.exponent_bits.len()
            invariant
                i <= self.exponent_bits.len(),
                bits@.len() == 1 + i,
                forall|j: int|
                    0 <= j < bits@.len() ==> Some(bits@[j].0) == self@.bit_type(j) && bits@[j].1
                        == self@.flat()[j],
            decreases self.exponent_bits.len() - i,
        {
            bits.push((BitType::Exponent, self.exponent_bits[i]));
            i += 1;
        }
        let mut k: usize = 0;
        while k < self.significand_bits.len()
            invariant
                k <= self.significand_bits.len(),
                bits@.len() == 1 + self.exponent_bits.len() + k,
                forall|j: int|
                    0 <= j < bits@.len() ==> Some(bits@[j].0) == self@.bit_type(j) && bits@[j].1
                        == self@.flat()[j],
            decreases self.significand_bits.len() - k,
        {
            bits.push((BitType::Significand, self.significand_bits[k]));
            k += 1;
        }
        bits
    }

    /// Sets the width of the exponent field. Bits that stay keep their
    /// values, bits cut off are lost, and new bits are clear.
    ///
    /// A width outside one to eleven is not clamped: the caller keeps to the
    /// range.
    pub fn resize_exponent(&mut self, new_len: usize)
        requires
            1 <= new_len <= BINARY_64_EXPONENT_BITS,
        ensures
            final(self)@ == old(self)@.with_exponent_len(new_len as nat),
            old(self)@.well_formed() ==> final(self)@.well_formed(),
    {
        self.exponent_bits.resize(new_len, false);
        assert(self.exponent_bits@ =~= resized(old(self).exponent_bits@, new_len as nat));
    }

    /// Sets the width of the significand field. Bits that stay keep their
    /// values, bits cut off are lost, and new bits are clear.
    ///
    /// A width outside one to fifty-two is not clamped: the caller keeps to
    /// the range.
    pub fn resize_significand(&mut self, new_len: usize)
        requires
            1 <= new_len <= BINARY_64_SIGNIFICAND_BITS,
        ensures
            final(self)@ == old(self)@.with_significand_len(new_len as nat),
            old(self)@.well_formed() ==> final(self)@.well_formed(),
    {
        self.significand_bits.resize(new_len, false);
        assert(self.significand_bits@ =~= resized(old(self).significand_bits@, new_len as nat));
    }

    /// Flips the bit at `flat_index`, counted over the sign bit, the exponent
    /// bits and the significand bits in that order. An index past the last
    /// bit changes nothing.
    pub fn toggle_bit(&mut self, flat_index: usize)
        ensures
            final(self)@ == old(self)@.toggled(flat_index as int),
            flat_index < old(self)@.flat().len() ==> final(self)@.flat() == flipped(
                old(self)@.flat(),
                flat_index as int,
            ),
            flat_index >= old(self)@.flat().len() ==> final(self)@ == old(self)@,
            final(self)@.well_formed() == old(self)@.well_formed(),
    {
        proof {
            if flat_index < old(self)@.flat().len() {
                lemma_toggled_flat(old(self)@, flat_index as int);
            }
        }
        let exponent_len: usize = self.exponent_bits.len();
        let significand_len: usize = self.significand_bits.len();
        if flat_index == 0 {
            self.sign_bit = !self.sign_bit;
        } else if flat_index - 1 < exponent_len {
            let index: usize = flat_index - 1;
            let bit: bool = self.exponent_bits[index];
            self.exponent_bits[index] = !bit;
        } else if flat_index - 1 - exponent_len < significand_len {
            let index: usize = flat_index - 1 - exponent_len;
            let bit: bool = self.significand_bits[index];
            self.significand_bits[index] = !bit;
        }
    }
}

} // verus!
