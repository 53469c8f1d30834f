//! What holds of parsing and binding for every line and every schema.

use crate::binder::{bind_outcome, TargetField, TargetKind};
use crate::error::ErrorView;
use crate::field::{FieldKind, FieldSpec};
use crate::parser::{
    coerce, field_outcome, field_slice, first_failure, lemma_parse_ok, lemma_record_of_lookup,
    numeric_text, parse_outcome, record_of,
};
use crate::schema::{distinct_names, lemma_schema_width, schema_valid, schema_width};
use crate::text::{
    all_digits, all_white_space, decimal_digits, digits_value, lemma_blank_trims_to_nothing,
    lemma_digits_round_trip, strip_line_end, trim, trim_end,
};
use crate::value::ValueView;
use vstd::prelude::*;

verus! {

/// `slice` is something that a field of kind `kind` accepts: any text for
/// `Alpha`; for the two numeric kinds digits alone, white space around them
/// set aside, that denote no more than `i64::MAX`.
pub open spec fn slice_matches_kind(kind: FieldKind, slice: Seq<char>) -> bool {
    match kind {
        FieldKind::Alpha => true,
        _ => all_digits(trim(slice)) && digits_value(trim(slice)) <= i64::MAX,
    }
}

/// A target of kind `target` expects what a field of kind `kind` yields.
pub open spec fn kinds_agree(kind: FieldKind, target: TargetKind) -> bool {
    match (kind, target) {
        (FieldKind::Alpha, TargetKind::Alpha) => true,
        (FieldKind::Numeric, TargetKind::Numeric(_)) => true,
        (FieldKind::Decimal { .. }, TargetKind::Decimal) => true,
        _ => false,
    }
}

/// `value` reads back as the characters of `slice`, trimmed as the kind
/// asks: the text itself for `Alpha`; for the two numeric kinds the number
/// that, written in as many digits as are left of the slice, gives those
/// digits.
pub open spec fn decodes_to(value: ValueView, kind: FieldKind, slice: Seq<char>) -> bool {
    match kind {
        FieldKind::Alpha => value == ValueView::Alpha(trim_end(slice)),
        FieldKind::Numeric => {
            &&& value matches ValueView::Numeric(n)
            &&& n >= 0
            &&& decimal_digits(n as nat, trim(slice).len()) == trim(slice)
        },
        FieldKind::Decimal { scale } => {
            &&& value matches ValueView::Decimal { raw, scale: s }
            &&& s == scale
            &&& raw >= 0
            &&& decimal_digits(raw as nat, trim(slice).len()) == trim(slice)
        },
    }
}

/// The field at `i` is the first that a line of `len` characters does not
/// reach.
pub open spec fn first_unreached(len: nat, fields: Seq<FieldSpec>, i: int) -> bool {
    &&& 0 <= i < fields.len()
    &&& len < fields[i].pos.end
    &&& forall|k: int| 0 <= k < i ==> (#[trigger] fields[k]).pos.end <= len
}

/// A line of `len` characters reaches the field at `k` and every field
/// before it.
pub open spec fn reached_through(len: nat, fields: Seq<FieldSpec>, k: int) -> bool {
    &&& 0 <= k < fields.len()
    &&& forall|m: int| 0 <= m <= k ==> (#[trigger] fields[m]).pos.end <= len
}

/// A slice that a field accepts is coerced into a value that reads back as
/// the slice.
pub proof fn lemma_coerce_round_trip(field: FieldSpec, slice: Seq<char>)
    requires
        slice_matches_kind(field.kind, slice),
    ensures
        coerce(field, slice) is Ok,
        decodes_to(coerce(field, slice)->Ok_0, field.kind, slice),
{
    if !(field.kind is Alpha) {
        let digits = trim(slice);
        if digits.len() == 0 {
            assert(decimal_digits(0, 0) =~= digits);
        } else {
            lemma_digits_round_trip(digits);
        }
    }
}

/// Round trip: where the schema is valid, the line reaches the last position
/// of every field (as a line of exactly the schema's width does) and every
/// slice is something its field accepts, parsing succeeds and the record
/// holds for every field a value that reads back as the field's slice.
pub proof fn lemma_round_trip(line: Seq<char>, fields: Seq<FieldSpec>)
    requires
        schema_valid(fields),
        strip_line_end(line).len() >= schema_width(fields),
        forall|i: int|
            0 <= i < fields.len() ==> slice_matches_kind(
                (#[trigger] fields[i]).kind,
                field_slice(strip_line_end(line), fields[i]),
            ),
    ensures
        parse_outcome(line, fields) is Ok,
        forall|i: int|
            #![trigger fields[i]]
            0 <= i < fields.len() ==> {
                &&& parse_outcome(line, fields)->Ok_0.contains_key(fields[i].name@)
                &&& decodes_to(
                    parse_outcome(line, fields)->Ok_0[fields[i].name@],
                    fields[i].kind,
                    field_slice(strip_line_end(line), fields[i]),
                )
            },
{
    let body = strip_line_end(line);
    lemma_schema_width(fields);
    assert forall|i: int| 0 <= i < fields.len() implies {
        &&& field_outcome(body, #[trigger] fields[i]) is Ok
        &&& decodes_to(
            field_outcome(body, fields[i])->Ok_0,
            fields[i].kind,
            field_slice(body, fields[i]),
        )
    } by {
        lemma_coerce_round_trip(fields[i], field_slice(body, fields[i]));
    }
    assert(parse_outcome(line, fields) == Ok::<_, ErrorView>(record_of(body, fields)));
    assert forall|i: int|
        #![trigger fields[i]]
        0 <= i < fields.len() implies {
        &&& record_of(body, fields).contains_key(fields[i].name@)
        &&& decodes_to(
            record_of(body, fields)[fields[i].name@],
            fields[i].kind,
            field_slice(body, fields[i]),
        )
    } by {
        lemma_record_of_lookup(body, fields, i);
    }
}

/// A numeric field that holds nothing but white space is 0, and so is a
/// decimal field of any scale.
pub proof fn lemma_blank_number_is_zero(field: FieldSpec, slice: Seq<char>)
    requires
        all_white_space(slice),
    ensures
        numeric_text(slice) == Some(0int),
        field.kind is Numeric ==> coerce(field, slice) == Ok::<_, ErrorView>(
            ValueView::Numeric(0),
        ),
        field.kind matches FieldKind::Decimal { scale } ==> coerce(field, slice) == Ok::<
            _,
            ErrorView,
        >(ValueView::Decimal { raw: 0, scale: scale as nat }),
{
    lemma_blank_trims_to_nothing(slice);
}

/// Short lines: a line with fewer characters than the schema is wide is
/// refused with `LineTooShort`, which carries the length of the line and the
/// last position of the first field, in the order of the schema, that the
/// line does not reach. This is so where the fields before that one are read
/// without error; else the first of their errors is returned.
pub proof fn lemma_short_line(line: Seq<char>, fields: Seq<FieldSpec>)
    requires
        strip_line_end(line).len() < schema_width(fields),
        forall|k: int| #[trigger]
            reached_through(strip_line_end(line).len(), fields, k) ==> coerce(
                fields[k],
                field_slice(strip_line_end(line), fields[k]),
            ) is Ok,
    ensures
        exists|i: int| #[trigger]
            first_unreached(strip_line_end(line).len(), fields, i) && parse_outcome(line, fields)
                == Err::<Map<Seq<char>, ValueView>, _>(
                ErrorView::LineTooShort {
                    len: strip_line_end(line).len(),
                    needed: fields[i].pos.end as nat,
                },
            ),
{
    let body = strip_line_end(line);
    lemma_schema_width(fields);
    let widest = choose|i: int|
        0 <= i < fields.len() && (#[trigger] fields[i]).pos.end == schema_width(fields);
    lemma_unreached_has_first(body.len(), fields, widest);
    let i = choose|i: int| first_unreached(body.len(), fields, i);
    assert(first_failure(body, fields, i)) by {
        assert forall|k: int| 0 <= k < i implies field_outcome(body, #[trigger] fields[k]) is Ok by {
            assert(reached_through(body.len(), fields, k));
        }
    }
    let chosen = choose|k: int| first_failure(body, fields, k);
    assert(chosen == i) by {
        if chosen < i {
            assert(field_outcome(body, fields[chosen]) is Ok);
        }
        if i < chosen {
            assert(field_outcome(body, fields[i]) is Ok);
        }
    }
}

/// A mismatch comes from the layout, never from the line: where a line was
/// parsed against fields of distinct names, a target with the name of one of
/// the fields and a kind that agrees with the field's is bound to the value
/// that the field yielded. Text and decimals always are; a number is unless
/// the target's type has no room for it, and then the error is
/// `InvalidNumeric`.
pub proof fn lemma_matching_target_binds(
    line: Seq<char>,
    fields: Seq<FieldSpec>,
    i: int,
    target: TargetField,
)
    requires
        distinct_names(fields),
        parse_outcome(line, fields) is Ok,
        0 <= i < fields.len(),
        target.name@ == fields[i].name@,
        kinds_agree(fields[i].kind, target.kind),
    ensures
        field_outcome(strip_line_end(line), fields[i]) is Ok,
        match bind_outcome(parse_outcome(line, fields)->Ok_0, target) {
            Ok(value) => value == field_outcome(strip_line_end(line), fields[i])->Ok_0,
            Err(e) => {
                &&& target.kind matches TargetKind::Numeric(ty)
                &&& field_outcome(strip_line_end(line), fields[i])->Ok_0 matches ValueView::Numeric(
                    n,
                )
                &&& !ty.holds(n)
                &&& e == (ErrorView::InvalidNumeric { field: target.name@, snippet: Seq::empty() })
            },
        },
{
    let body = strip_line_end(line);
    lemma_parse_ok(line, fields);
    lemma_record_of_lookup(body, fields, i);
    assert(field_outcome(body, fields[i]) is Ok);
}

/// Where the line does not reach some field, some field is the first that
/// it does not reach.
proof fn lemma_unreached_has_first(len: nat, fields: Seq<FieldSpec>, i: int)
    requires
        0 <= i < fields.len(),
        len < fields[i].pos.end,
    ensures
        exists|k: int| 0 <= k <= i && first_unreached(len, fields, k),
    decreases i,
{
    if exists|k: int| 0 <= k < i && len < (#[trigger] fields[k]).pos.end {
        let k = choose|k: int| 0 <= k < i && len < (#[trigger] fields[k]).pos.end;
        lemma_unreached_has_first(len, fields, k);
    } else {
        assert(first_unreached(len, fields, i));
    }
}

} // verus!
