//! Typed extraction of records from fixed-width text lines, as banking
//! interchange files use them: every field of a record occupies a fixed
//! range of characters, counted from 1 and with both ends included.
//!
//! A layout is a list of [`FieldSpec`]s. [`Schema::new`] validates such a list
//! once; [`Schema::parse`] (or [`parse_line`], on a list that is known to be
//! sound) then turns each line into a [`ParsedRecord`] of [`Value`]s, and
//! [`bind_record`] checks those against the fields of a record type.

pub mod binder;
pub mod declare;
pub mod error;
pub mod field;
pub mod parser;
pub mod position;
pub mod record;
pub mod schema;
pub mod text;
pub mod theorems;
pub mod traits;
pub mod value;

pub use binder::{bind_field, bind_record, IntType, TargetField, TargetKind};
pub use declare::{DraftError, FieldDraft, FieldOption};
pub use error::FixedWidthError;
pub use field::{FieldKind, FieldSpec};
pub use parser::{coerce_field, parse_line};
pub use position::{parse_pos, FieldPos, PosError};
pub use record::ParsedRecord;
pub use schema::{validate_schema, Schema};
pub use traits::{FixedWidthParse, FixedWidthSpec};
pub use value::{pow10, Value};
