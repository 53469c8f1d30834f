//! The errors of schema validation, line parsing and binding.

use crate::position::FieldPos;
use vstd::prelude::*;

verus! {

/// Everything that can go wrong between a schema and a typed record.
#[derive(Debug, Clone, PartialEq, Eq)]
pub enum FixedWidthError {
    /// The line has `len` characters and a field needs `needed` of them.
    LineTooShort { len: usize, needed: usize },
    /// A numeric or decimal field holds something other than digits, or a
    /// number that does not fit. `snippet` is the offending slice of the line
    /// (empty when the number was rejected while binding).
    InvalidNumeric { field: &'static str, snippet: String },
    /// The input is not text. Kept for callers that decode lines themselves:
    /// nothing here returns it, since a `&str` is decoded already.
    InvalidUtf8,
    /// A field's position starts at 0 or ends before it starts.
    InvalidPosition { field: &'static str, pos: FieldPos },
    /// Two fields of a schema have the same name; `field` is that name.
    DuplicateField { field: &'static str },
    /// The positions of `first` and `second` share the characters at
    /// `overlap`.
    SchemaOverlap {
        first: &'static str,
        first_pos: FieldPos,
        second: &'static str,
        second_pos: FieldPos,
        overlap: FieldPos,
    },
    /// The record holds no value for `field`, or one of another kind than the
    /// target expects.
    BindingMismatch { field: &'static str },
}

/// The mathematical content of a [`FixedWidthError`].
pub enum ErrorView {
    LineTooShort { len: nat, needed: nat },
    InvalidNumeric { field: Seq<char>, snippet: Seq<char> },
    InvalidUtf8,
    InvalidPosition { field: Seq<char>, pos: FieldPos },
    DuplicateField { field: Seq<char> },
    SchemaOverlap {
        first: Seq<char>,
        first_pos: FieldPos,
        second: Seq<char>,
        second_pos: FieldPos,
        overlap: FieldPos,
    },
    BindingMismatch { field: Seq<char> },
}

impl View for FixedWidthError {
    type V = ErrorView;

    open spec fn view(&self) -> ErrorView {
        match self {
            FixedWidthError::LineTooShort { len, needed } => ErrorView::LineTooShort {
                len: *len as nat,
                needed: *needed as nat,
            },
            FixedWidthError::InvalidNumeric { field, snippet } => ErrorView::InvalidNumeric {
                field: field@,
                snippet: snippet@,
            },
            FixedWidthError::InvalidUtf8 => ErrorView::InvalidUtf8,
            FixedWidthError::InvalidPosition { field, pos } => ErrorView::InvalidPosition {
                field: field@,
                pos: *pos,
            },
            FixedWidthError::DuplicateField { field } => ErrorView::DuplicateField {
                field: field@,
            },
            FixedWidthError::SchemaOverlap {
                first,
                first_pos,
                second,
                second_pos,
                overlap,
            } => ErrorView::SchemaOverlap {
                first: first@,
                first_pos: *first_pos,
                second: second@,
                second_pos: *second_pos,
                overlap: *overlap,
            },
            FixedWidthError::BindingMismatch { field } => ErrorView::BindingMismatch {
                field: field@,
            },
        }
    }
}

} // verus!
