//! The events that change a layout, and how each is applied.

use crate::model::{BitField, Model, BINARY_64_EXPONENT_BITS, BINARY_64_SIGNIFICAND_BITS};
use vstd::prelude::*;

verus! {

/// An event that changes a layout.
#[derive(Debug, Copy, Clone, PartialEq, Eq, Structural)]
pub enum Msg {
    /// Set the width of the exponent field.
    SetExpSize(usize),
    /// Set the width of the significand field.
    SetSigSize(usize),
    /// Flip the bit at a flat index.
    ToggleBit(usize),
}

impl Msg {
    /// The event asks for nothing out of bounds: a width it sets lies within
    /// the bounds of its field. Every toggle is in bounds, since one past the
    /// last bit is defined to change nothing.
    pub open spec fn in_bounds(self) -> bool {
        match self {
            Msg::SetExpSize(len) => 1 <= len <= BINARY_64_EXPONENT_BITS,
            Msg::SetSigSize(len) => 1 <= len <= BINARY_64_SIGNIFICAND_BITS,
            Msg::ToggleBit(_) => true,
        }
    }

    /// Whether the event asks for nothing out of bounds.
    pub fn is_in_bounds(&self) -> (ok: bool)
        ensures
            ok == self.in_bounds(),
    {
        match *self {
            Msg::SetExpSize(len) => 1 <= len && len <= BINARY_64_EXPONENT_BITS,
            Msg::SetSigSize(len) => 1 <= len && len <= BINARY_64_SIGNIFICAND_BITS,
            Msg::ToggleBit(_) => true,
        }
    }
}

/// The layout that `field` becomes when `msg` is applied to it.
pub open spec fn applied(field: BitField, msg: Msg) -> BitField {
    match msg {
        Msg::SetExpSize(len) => field.with_exponent_len(len as nat),
        Msg::SetSigSize(len) => field.with_significand_len(len as nat),
        Msg::ToggleBit(flat_index) => field.toggled(flat_index as int),
    }
}

/// The layout an application starts with: that of binary64, all bits clear.
pub fn init() -> (model: Model)
    ensures
        model@ == BitField::cleared(
            BINARY_64_EXPONENT_BITS as nat,
            BINARY_64_SIGNIFICAND_BITS as nat,
        ),
        model@.well_formed(),
{
    Model::new()
}

/// Applies one event to the layout.
///
/// A width out of bounds is not clamped: the caller sends only events that
/// are in bounds, and can ask `is_in_bounds` first.
pub fn update(msg: Msg, model: &mut Model)
    requires
        msg.in_bounds(),
    ensures
        final(model)@ == applied(old(model)@, msg),
        old(model)@.well_formed() ==> final(model)@.well_formed(),
{
    match msg {
        Msg::SetExpSize(e) => model.resize_exponent(e),
        Msg::SetSigSize(s) => model.resize_significand(s),
        Msg::ToggleBit(b) => model.toggle_bit(b),
    }
}

} // verus!
