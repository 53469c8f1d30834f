//! The traits that a record type implements to be read from a line.

use crate::error::FixedWidthError;
use crate::field::FieldSpec;
use vstd::prelude::*;

verus! {

/// A record type that knows its layout.
pub trait FixedWidthSpec {
    /// The fields of the layout, in order.
    fn spec() -> &'static [FieldSpec];
}

/// A record type that can be built from a line of text.
pub trait FixedWidthParse: Sized {
    /// Builds a record from one line.
    fn parse(line: &str) -> Result<Self, FixedWidthError>;
}

} // verus!
