//! The line parser: slices a line by a list of fields and coerces each
//! slice into a value.

use crate::error::{ErrorView, FixedWidthError};
use crate::field::{FieldKind, FieldSpec};
use crate::record::ParsedRecord;
use crate::schema::{distinct_names, pair_same_name, positions_wf};
use crate::text::{
    all_digits, digits_value, line_body_len, parse_digits, strip_line_end, to_chars, trim,
    trim_end, trim_end_index, trim_start_index,
};
use crate::value::{Value, ValueView};
use vstd::prelude::*;
use vstd::string::*;

verus! {

/// The number that the slice of a numeric or decimal field stands for:
/// 0 for a blank slice, else the value of its digits once the white space
/// around them is gone. Nothing if anything but digits is left, or if the
/// number is too large for 64 bits with sign.
pub open spec fn numeric_text(slice: Seq<char>) -> Option<int> {
    let digits = trim(slice);
    if digits.len() == 0 {
        Some(0)
    } else if all_digits(digits) && digits_value(digits) <= i64::MAX {
        Some(digits_value(digits) as int)
    } else {
        None
    }
}

/// The value that `slice` yields when read as the field `field`, or the
/// error it is refused with.
pub open spec fn coerce(field: FieldSpec, slice: Seq<char>) -> Result<ValueView, ErrorView> {
    match field.kind {
        FieldKind::Alpha => Ok(ValueView::Alpha(trim_end(slice))),
        FieldKind::Numeric => match numeric_text(slice) {
            Some(n) => Ok(ValueView::Numeric(n)),
            None => Err(ErrorView::InvalidNumeric { field: field.name@, snippet: slice }),
        },
        FieldKind::Decimal { scale } => match numeric_text(slice) {
            Some(n) => Ok(ValueView::Decimal { raw: n, scale: scale as nat }),
            None => Err(ErrorView::InvalidNumeric { field: field.name@, snippet: slice }),
        },
    }
}

/// The characters of `body` that the field `field` covers.
pub open spec fn field_slice(body: Seq<char>, field: FieldSpec) -> Seq<char> {
    body.subrange(field.pos.start - 1, field.pos.end as int)
}

/// What the field `field` yields on a line whose characters, line end
/// excluded, are `body`.
pub open spec fn field_outcome(body: Seq<char>, field: FieldSpec) -> Result<
    ValueView,
    ErrorView,
> {
    if body.len() < field.pos.end {
        Err(ErrorView::LineTooShort { len: body.len(), needed: field.pos.end as nat })
    } else {
        coerce(field, field_slice(body, field))
    }
}

/// The field at `i` fails on `body` and no field before it does.
pub open spec fn first_failure(body: Seq<char>, fields: Seq<FieldSpec>, i: int) -> bool {
    &&& 0 <= i < fields.len()
    &&& field_outcome(body, fields[i]) is Err
    &&& forall|k: int| 0 <= k < i ==> field_outcome(body, #[trigger] fields[k]) is Ok
}

/// The record that the fields yield on `body`: each value under the name of
/// its field, a later field replacing an earlier one of the same name.
pub open spec fn record_of(body: Seq<char>, fields: Seq<FieldSpec>) -> Map<Seq<char>, ValueView>
    decreases fields.len(),
{
    if fields.len() == 0 {
        Map::empty()
    } else {
        record_of(body, fields.drop_last()).insert(
            fields.last().name@,
            field_outcome(body, fields.last())->Ok_0,
        )
    }
}

/// What parsing `line` against `fields` yields: the error of the first
/// field that fails, in the order of `fields`; the record of all values if
/// none does.
pub open spec fn parse_outcome(line: Seq<char>, fields: Seq<FieldSpec>) -> Result<
    Map<Seq<char>, ValueView>,
    ErrorView,
> {
    let body = strip_line_end(line);
    if exists|i: int| first_failure(body, fields, i) {
        let i = choose|i: int| first_failure(body, fields, i);
        Err(field_outcome(body, fields[i])->Err_0)
    } else {
        Ok(record_of(body, fields))
    }
}

/// A name has a value in the record exactly when some field bears it.
pub proof fn lemma_record_of_names(body: Seq<char>, fields: Seq<FieldSpec>)
    ensures
        forall|name: Seq<char>| #[trigger]
            record_of(body, fields).contains_key(name) <==> exists|i: int|
                0 <= i < fields.len() && (#[trigger] fields[i]).name@ == name,
    decreases fields.len(),
{
    if fields.len() > 0 {
        let front = fields.drop_last();
        lemma_record_of_names(body, front);
        assert forall|name: Seq<char>| #[trigger]
            record_of(body, fields).contains_key(name) implies exists|i: int|
            0 <= i < fields.len() && (#[trigger] fields[i]).name@ == name by {
            if name == fields.last().name@ {
                assert(fields[fields.len() - 1].name@ == name);
            } else {
                assert(record_of(body, front).contains_key(name));
                let i = choose|i: int| 0 <= i < front.len() && (#[trigger] front[i]).name@ == name;
                assert(fields[i].name@ == name);
            }
        }
        assert forall|name: Seq<char>|
            (exists|i: int|
                0 <= i < fields.len() && (#[trigger] fields[i]).name@ == name) implies #[trigger]
            record_of(body, fields).contains_key(name) by {
            let i = choose|i: int| 0 <= i < fields.len() && (#[trigger] fields[i]).name@ == name;
            if i < fields.len() - 1 {
                assert(front[i].name@ == name);
                assert(record_of(body, front).contains_key(name));
            } else {
                assert(fields.last().name@ == name);
            }
        }
    }
}

/// Where no name occurs twice, the record holds under the name of each
/// field the value of that field.
pub proof fn lemma_record_of_lookup(body: Seq<char>, fields: Seq<FieldSpec>, i: int)
    requires
        distinct_names(fields),
        0 <= i < fields.len(),
    ensures
        record_of(body, fields).contains_key(fields[i].name@),
        record_of(body, fields)[fields[i].name@] == field_outcome(body, fields[i])->Ok_0,
    decreases fields.len(),
{
    let front = fields.drop_last();
    if i < fields.len() - 1 {
        assert forall|a: int, b: int| 0 <= a < b < front.len() implies !#[trigger] pair_same_name(
            front,
            a,
            b,
        ) by {
            assert(!pair_same_name(fields, a, b));
        }
        lemma_record_of_lookup(body, front, i);
        assert(!pair_same_name(fields, i, fields.len() - 1));
    }
}

/// A parse that succeeds means that every field was read without error.
pub proof fn lemma_parse_ok(line: Seq<char>, fields: Seq<FieldSpec>)
    requires
        parse_outcome(line, fields) is Ok,
    ensures
        parse_outcome(line, fields) == Ok::<_, ErrorView>(
            record_of(strip_line_end(line), fields),
        ),
        forall|i: int|
            0 <= i < fields.len() ==> field_outcome(
                strip_line_end(line),
                #[trigger] fields[i],
            ) is Ok,
{
    let body = strip_line_end(line);
    assert forall|i: int| 0 <= i < fields.len() implies field_outcome(
        body,
        #[trigger] fields[i],
    ) is Ok by {
        if field_outcome(body, fields[i]) is Err {
            lemma_failure_has_first(body, fields, i);
        }
    }
}

/// Where some field fails, some field is the first to fail.
pub proof fn lemma_failure_has_first(body: Seq<char>, fields: Seq<FieldSpec>, i: int)
    requires
        0 <= i < fields.len(),
        field_outcome(body, fields[i]) is Err,
    ensures
        exists|k: int| 0 <= k <= i && first_failure(body, fields, k),
    decreases i,
{
    if exists|k: int| 0 <= k < i && field_outcome(body, #[trigger] fields[k]) is Err {
        let k = choose|k: int| 0 <= k < i && field_outcome(body, #[trigger] fields[k]) is Err;
        lemma_failure_has_first(body, fields, k);
    } else {
        assert(first_failure(body, fields, i));
    }
}

/// Reads the characters of a numeric or decimal field.
fn read_number(chars: &[char]) -> (r: Option<i64>)
    ensures
        r is Some <==> numeric_text(chars@) is Some,
        r matches Some(n) ==> numeric_text(chars@) == Some(n as int),
{
    let end: usize = trim_end_index(chars, 0, chars.len());
    let start: usize = trim_start_index(chars, 0, end);
    assert(chars@.subrange(0, chars@.len() as int) == chars@);
    assert(chars@.subrange(start as int, end as int) == trim(chars@));
    if start == end {
        Some(0)
    } else {
        match parse_digits(chars, start, end, 0x7fff_ffff_ffff_ffff) {
            Some(n) => Some(n as i64),
            None => None,
        }
    }
}

/// Coerces the slice of a line that `field` covers into a value.
///
/// An `Alpha` field keeps its text but for the white space at the end. A
/// `Numeric` or `Decimal` field is read as digits, white space around them
/// set aside, and a blank one is 0; anything else in it is refused with
/// `InvalidNumeric`, which carries the slice as it was.
pub fn coerce_field(field: &FieldSpec, slice: &str) -> (r: Result<Value, FixedWidthError>)
    ensures
        match r {
            Ok(v) => coerce(*field, slice@) == Ok::<ValueView, ErrorView>(v@),
            Err(e) => coerce(*field, slice@) == Err::<ValueView, ErrorView>(e@),
        },
{
    let chars = to_chars(slice);
    match field.kind {
        FieldKind::Alpha => {
            let end: usize = trim_end_index(chars.as_slice(), 0, chars.len());
            assert(chars@.subrange(0, chars@.len() as int) == chars@);
            let text = slice.substring_char(0, end);
            Ok(Value::Alpha(String::from_str(text)))
        },
        FieldKind::Numeric => match read_number(chars.as_slice()) {
            Some(n) => Ok(Value::Numeric(n)),
            None => Err(
                FixedWidthError::InvalidNumeric {
                    field: field.name,
                    snippet: String::from_str(slice),
                },
            ),
        },
        FieldKind::Decimal { scale } => match read_number(chars.as_slice()) {
            Some(n) => Ok(Value::Decimal { raw: n, scale }),
            None => Err(
                FixedWidthError::InvalidNumeric {
                    field: field.name,
                    snippet: String::from_str(slice),
                },
            ),
        },
    }
}

/// Parses one line against a list of fields.
///
/// Carriage returns and line feeds at the end of the line are set aside
/// first. The fields are then taken in order: each needs the line to reach
/// its last position, and its slice to be acceptable for its kind. The first
/// field that fails decides the error. Positions count characters.
pub fn parse_line(line: &str, fields: &[FieldSpec]) -> (r: Result<ParsedRecord, FixedWidthError>)
    requires
        positions_wf(fields@),
    ensures
        match r {
            Ok(record) => parse_outcome(line@, fields@) == Ok::<_, ErrorView>(record@),
            Err(e) => parse_outcome(line@, fields@) == Err::<Map<Seq<char>, ValueView>, _>(e@),
        },
{
    let chars = to_chars(line);
    let len: usize = line_body_len(chars.as_slice());
    let ghost body = strip_line_end(line@);
    let mut record = ParsedRecord::new();
    let mut i: usize = 0;
    while i < fields.len()
        invariant
            i <= fields@.len(),
            positions_wf(fields@),
            chars@ == line@,
            len <= line@.len(),
            body == line@.take(len as int),
            body == strip_line_end(line@),
            forall|k: int| 0 <= k < i ==> field_outcome(body, #[trigger] fields@[k]) is Ok,
            record@ == record_of(body, fields@.take(i as int)),
        decreases fields@.len() - i,
    {
        let field = &fields[i];
        assert(field.pos.wf());
        if len < field.pos.end {
            assert(first_failure(body, fields@, i as int));
            return Err(FixedWidthError::LineTooShort { len, needed: field.pos.end });
        }
        let range = field.pos.as_range();
        let slice = line.substring_char(range.start, range.end);
        assert(slice@ == field_slice(body, *field));
        match coerce_field(field, slice) {
            Ok(value) => {
                assert(fields@.take(i + 1).drop_last() == fields@.take(i as int));
                record.insert(field.name, value);
            },
            Err(e) => {
                assert(first_failure(body, fields@, i as int));
                return Err(e);
            },
        }
        i = i + 1;
    }
    assert(fields@.take(i as int) == fields@);
    Ok(record)
}

} // verus!
