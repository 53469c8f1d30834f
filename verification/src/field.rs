//! The description of one field of a record layout.

use crate::position::FieldPos;
use vstd::prelude::*;

verus! {

/// How the characters of a field are turned into a value.
#[derive(Debug, Clone, Copy, PartialEq, Eq, Structural)]
pub enum FieldKind {
    /// Text, left-aligned and padded with spaces on the right.
    Alpha,
    /// A whole number written in digits; a blank field stands for 0.
    Numeric,
    /// A number written in digits of which the last `scale` are fractional:
    /// `"001234"` with scale 2 stands for 12.34.
    Decimal { scale: u8 },
}

/// One field of a layout: its name, where it lies and how it is read.
#[derive(Debug, Clone, Copy)]
pub struct FieldSpec {
    /// Name of the field; the key under which its value is stored.
    pub name: &'static str,
    /// Where the field lies in the line.
    pub pos: FieldPos,
    /// How the field is read.
    pub kind: FieldKind,
}

} // verus!
