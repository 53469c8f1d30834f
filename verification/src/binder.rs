//! The typed binder: checks the values of a parsed record against the
//! fields of a target record type.
//!
//! A decimal is bound as the fixed-point pair of its digits and its scale,
//! which stands for `raw / 10^scale`; no rounding takes place here.

use crate::error::{ErrorView, FixedWidthError};
use crate::record::ParsedRecord;
use crate::text::same_text;
use crate::value::{Value, ValueView};
use vstd::prelude::*;

verus! {

/// The integer types that a numeric field can be bound to.
#[derive(Debug, Clone, Copy, PartialEq, Eq, Structural)]
pub enum IntType {
    I8,
    I16,
    I32,
    I64,
    I128,
    Isize,
    U8,
    U16,
    U32,
    U64,
    U128,
    Usize,
}

impl IntType {
    /// The least number of the type.
    pub open spec fn min_value(self) -> int {
        match self {
            IntType::I8 => i8::MIN as int,
            IntType::I16 => i16::MIN as int,
            IntType::I32 => i32::MIN as int,
            IntType::I64 => i64::MIN as int,
            IntType::I128 => i128::MIN as int,
            IntType::Isize => isize::MIN as int,
            _ => 0,
        }
    }

    /// The greatest number of the type.
    pub open spec fn max_value(self) -> int {
        match self {
            IntType::I8 => i8::MAX as int,
            IntType::I16 => i16::MAX as int,
            IntType::I32 => i32::MAX as int,
            IntType::I64 => i64::MAX as int,
            IntType::I128 => i128::MAX as int,
            IntType::Isize => isize::MAX as int,
            IntType::U8 => u8::MAX as int,
            IntType::U16 => u16::MAX as int,
            IntType::U32 => u32::MAX as int,
            IntType::U64 => u64::MAX as int,
            IntType::U128 => u128::MAX as int,
            IntType::Usize => usize::MAX as int,
        }
    }

    /// The type has room for `n`.
    pub open spec fn holds(self, n: int) -> bool {
        self.min_value() <= n <= self.max_value()
    }

    /// Whether the type has room for `n`.
    pub fn fits(self, n: i64) -> (r: bool)
        ensures
            r == self.holds(n as int),
    {
        match self {
            IntType::I8 => -0x80 <= n && n <= 0x7f,
            IntType::I16 => -0x8000 <= n && n <= 0x7fff,
            IntType::I32 => -0x8000_0000 <= n && n <= 0x7fff_ffff,
            IntType::I64 => true,
            IntType::I128 => true,
            IntType::Isize => isize::MIN as i64 <= n && n <= isize::MAX as i64,
            IntType::U8 => 0 <= n && n <= 0xff,
            IntType::U16 => 0 <= n && n <= 0xffff,
            IntType::U32 => 0 <= n && n <= 0xffff_ffff,
            IntType::U64 => 0 <= n,
            IntType::U128 => 0 <= n,
            IntType::Usize => 0 <= n && n as u64 <= usize::MAX as u64,
        }
    }

    /// The type that Rust calls `name`, if it is one of the integer types.
    pub open spec fn named(name: Seq<char>) -> Option<IntType> {
        if name == "i8"@ {
            Some(IntType::I8)
        } else if name == "i16"@ {
            Some(IntType::I16)
        } else if name == "i32"@ {
            Some(IntType::I32)
        } else if name == "i64"@ {
            Some(IntType::I64)
        } else if name == "i128"@ {
            Some(IntType::I128)
        } else if name == "isize"@ {
            Some(IntType::Isize)
        } else if name == "u8"@ {
            Some(IntType::U8)
        } else if name == "u16"@ {
            Some(IntType::U16)
        } else if name == "u32"@ {
            Some(IntType::U32)
        } else if name == "u64"@ {
            Some(IntType::U64)
        } else if name == "u128"@ {
            Some(IntType::U128)
        } else if name == "usize"@ {
            Some(IntType::Usize)
        } else {
            None
        }
    }

    /// The type that Rust calls `name`, if it is one of the integer types.
    pub fn from_name(name: &str) -> (r: Option<IntType>)
        ensures
            r == IntType::named(name@),
    {
        if same_text(name, "i8") {
            Some(IntType::I8)
        } else if same_text(name, "i16") {
            Some(IntType::I16)
        } else if same_text(name, "i32") {
            Some(IntType::I32)
        } else if same_text(name, "i64") {
            Some(IntType::I64)
        } else if same_text(name, "i128") {
            Some(IntType::I128)
        } else if same_text(name, "isize") {
            Some(IntType::Isize)
        } else if same_text(name, "u8") {
            Some(IntType::U8)
        } else if same_text(name, "u16") {
            Some(IntType::U16)
        } else if same_text(name, "u32") {
            Some(IntType::U32)
        } else if same_text(name, "u64") {
            Some(IntType::U64)
        } else if same_text(name, "u128") {
            Some(IntType::U128)
        } else if same_text(name, "usize") {
            Some(IntType::Usize)
        } else {
            None
        }
    }
}

/// What a field of the target record type expects of its value.
#[derive(Debug, Clone, Copy, PartialEq, Eq, Structural)]
pub enum TargetKind {
    /// Text.
    Alpha,
    /// A whole number that the given integer type has room for.
    Numeric(IntType),
    /// A decimal, of any scale.
    Decimal,
}

/// One field of the target record type.
#[derive(Debug, Clone, Copy)]
pub struct TargetField {
    /// Name of the field; the value is looked up under it.
    pub name: &'static str,
    /// What the field expects.
    pub kind: TargetKind,
}

/// The value that the field `target` is given from `record`, or the error
/// that binding it fails with: `BindingMismatch` where the record has no
/// value of that name or one of another kind, `InvalidNumeric` (without a
/// snippet) where the number does not fit the field's type.
pub open spec fn bind_outcome(record: Map<Seq<char>, ValueView>, target: TargetField) -> Result<
    ValueView,
    ErrorView,
> {
    if !record.contains_key(target.name@) {
        Err(ErrorView::BindingMismatch { field: target.name@ })
    } else {
        let value = record[target.name@];
        match (target.kind, value) {
            (TargetKind::Alpha, ValueView::Alpha(_)) => Ok(value),
            (TargetKind::Numeric(ty), ValueView::Numeric(n)) => if ty.holds(n) {
                Ok(value)
            } else {
                Err(ErrorView::InvalidNumeric { field: target.name@, snippet: Seq::empty() })
            },
            (TargetKind::Decimal, ValueView::Decimal { .. }) => Ok(value),
            _ => Err(ErrorView::BindingMismatch { field: target.name@ }),
        }
    }
}

/// The field at `i` cannot be bound and every field before it can.
pub open spec fn first_unbound(
    record: Map<Seq<char>, ValueView>,
    targets: Seq<TargetField>,
    i: int,
) -> bool {
    &&& 0 <= i < targets.len()
    &&& bind_outcome(record, targets[i]) is Err
    &&& forall|k: int| 0 <= k < i ==> bind_outcome(record, #[trigger] targets[k]) is Ok
}

/// What binding `record` to the fields `targets` yields: the error of the
/// first field that cannot be bound; the values of all fields, in the order
/// of `targets`, if there is none.
pub open spec fn bind_all_outcome(
    record: Map<Seq<char>, ValueView>,
    targets: Seq<TargetField>,
) -> Result<Seq<ValueView>, ErrorView> {
    if exists|i: int| first_unbound(record, targets, i) {
        let i = choose|i: int| first_unbound(record, targets, i);
        Err(bind_outcome(record, targets[i])->Err_0)
    } else {
        Ok(Seq::new(targets.len(), |i: int| bind_outcome(record, targets[i])->Ok_0))
    }
}

/// The views of the values of `values`, in order.
pub open spec fn value_views(values: Seq<Value>) -> Seq<ValueView> {
    Seq::new(values.len(), |i: int| values[i]@)
}

/// Binds one field of the target: looks its value up by name and checks it
/// against what the field expects.
pub fn bind_field(record: &ParsedRecord, target: &TargetField) -> (r: Result<
    Value,
    FixedWidthError,
>)
    ensures
        match r {
            Ok(v) => bind_outcome(record@, *target) == Ok::<_, ErrorView>(v@),
            Err(e) => bind_outcome(record@, *target) == Err::<ValueView, _>(e@),
        },
{
    let value = match record.get(target.name) {
        Some(value) => value,
        None => {
            return Err(FixedWidthError::BindingMismatch { field: target.name });
        },
    };
    match (target.kind, value) {
        (TargetKind::Alpha, Value::Alpha(_)) => Ok(value.duplicate()),
        (TargetKind::Numeric(ty), Value::Numeric(n)) => {
            if ty.fits(*n) {
                Ok(Value::Numeric(*n))
            } else {
                Err(FixedWidthError::InvalidNumeric { field: target.name, snippet: String::new() })
            }
        },
        (TargetKind::Decimal, Value::Decimal { raw, scale }) => Ok(
            Value::Decimal { raw: *raw, scale: *scale },
        ),
        _ => Err(FixedWidthError::BindingMismatch { field: target.name }),
    }
}

/// Binds every field of the target, in order, and stops at the first that
/// cannot be bound.
pub fn bind_record(record: &ParsedRecord, targets: &[TargetField]) -> (r: Result<
    Vec<Value>,
    FixedWidthError,
>)
    ensures
        match r {
            Ok(values) => bind_all_outcome(record@, targets@) == Ok::<_, ErrorView>(
                value_views(values@),
            ),
            Err(e) => bind_all_outcome(record@, targets@) == Err::<Seq<ValueView>, _>(e@),
        },
{
    let mut values: Vec<Value> = Vec::new();
    let mut i: usize = 0;
    while i < targets.len()
        invariant
            i <= targets@.len(),
            values@.len() == i,
            forall|k: int|
                0 <= k < i ==> bind_outcome(record@, #[trigger] targets@[k]) == Ok::<
                    _,
                    ErrorView,
                >(values@[k]@),
        decreases targets@.len() - i,
    {
        match bind_field(record, &targets[i]) {
            Ok(value) => {
                values.push(value);
            },
            Err(e) => {
                assert(first_unbound(record@, targets@, i as int));
                return Err(e);
            },
        }
        i = i + 1;
    }
    assert(value_views(values@) =~= Seq::new(
        targets@.len(),
        |i: int| bind_outcome(record@, targets@[i])->Ok_0,
    ));
    Ok(values)
}

} // verus!
