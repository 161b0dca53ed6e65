//! A model of a binary floating-point number with adjustable field widths.
//!
//! A number is laid out as one sign bit, up to eleven exponent bits and up to
//! fifty-two significand bits. The widths can be changed and single bits
//! flipped; the layout is then read as the IEEE 754 binary64 number that the
//! narrower format widens to, and handed out as that number's 64-bit pattern.

pub mod bits;
pub mod model;
pub mod decode;
pub mod message;
pub mod display;

pub use crate::display::{notation, Notation};
pub use crate::message::{init, update, Msg};
pub use crate::model::{BitField, BitType, Model};
