//! Schemas: ordered lists of fields, and the checks a list has to pass
//! before lines are parsed against it.

use crate::error::{ErrorView, FixedWidthError};
use crate::field::FieldSpec;
use crate::parser::{
    field_outcome, lemma_parse_ok, lemma_record_of_lookup, lemma_record_of_names, parse_line,
    parse_outcome, record_of,
};
use crate::position::{
    lemma_disjoint_when_before, lemma_nested_overlap, lemma_overlap_symmetric, FieldPos,
};
use crate::record::ParsedRecord;
use crate::text::{same_text, strip_line_end};
use crate::value::ValueView;
use vstd::prelude::*;

verus! {

/// The fields at `i` and `j` occupy a common position.
pub open spec fn pair_overlaps(fields: Seq<FieldSpec>, i: int, j: int) -> bool {
    fields[i].pos.overlaps(&fields[j].pos)
}

/// The fields at `i` and `j` have the same name.
pub open spec fn pair_same_name(fields: Seq<FieldSpec>, i: int, j: int) -> bool {
    fields[i].name@ == fields[j].name@
}

/// The pair `(a, b)` is looked at before the pair `(i, j)` when pairs are
/// taken by their first member and then by their second.
pub open spec fn pair_before(a: int, b: int, i: int, j: int) -> bool {
    a < i || (a == i && b < j)
}

/// No two fields occupy a common position.
pub open spec fn overlap_free(fields: Seq<FieldSpec>) -> bool {
    forall|i: int, j: int|
        0 <= i < j < fields.len() ==> !#[trigger] pair_overlaps(fields, i, j)
}

/// No two fields have the same name.
pub open spec fn distinct_names(fields: Seq<FieldSpec>) -> bool {
    forall|i: int, j: int|
        0 <= i < j < fields.len() ==> !#[trigger] pair_same_name(fields, i, j)
}

/// Every field has a well-formed position.
pub open spec fn positions_wf(fields: Seq<FieldSpec>) -> bool {
    forall|i: int| 0 <= i < fields.len() ==> (#[trigger] fields[i]).pos.wf()
}

/// What a list of fields has to satisfy to be a schema.
pub open spec fn schema_valid(fields: Seq<FieldSpec>) -> bool {
    &&& positions_wf(fields)
    &&& distinct_names(fields)
    &&& overlap_free(fields)
}

/// The width of the records that a list of fields describes: the last
/// position that any field reaches.
pub open spec fn schema_width(fields: Seq<FieldSpec>) -> nat
    decreases fields.len(),
{
    if fields.len() == 0 {
        0
    } else {
        let front = schema_width(fields.drop_last());
        let end = fields.last().pos.end as nat;
        if end > front {
            end
        } else {
            front
        }
    }
}

/// No field reaches beyond the width, and some field reaches it.
pub proof fn lemma_schema_width(fields: Seq<FieldSpec>)
    ensures
        forall|i: int| 0 <= i < fields.len() ==> (#[trigger] fields[i]).pos.end <= schema_width(fields),
        fields.len() > 0 ==> exists|i: int|
            0 <= i < fields.len() && (#[trigger] fields[i]).pos.end == schema_width(fields),
    decreases fields.len(),
{
    if fields.len() > 0 {
        let front = fields.drop_last();
        lemma_schema_width(front);
        assert forall|i: int| 0 <= i < fields.len() implies (#[trigger] fields[i]).pos.end
            <= schema_width(fields) by {
            if i < front.len() {
                assert(front[i].pos.end <= schema_width(front));
            }
        }
        if fields.last().pos.end as nat > schema_width(front) || front.len() == 0 {
            assert(fields[fields.len() - 1].pos.end == schema_width(fields));
        } else {
            let i = choose|i: int|
                0 <= i < front.len() && (#[trigger] front[i]).pos.end == schema_width(front);
            assert(fields[i].pos.end == schema_width(fields));
        }
    }
}

/// `(i, j)` is the first pair of overlapping fields.
pub open spec fn first_overlap(fields: Seq<FieldSpec>, i: int, j: int) -> bool {
    &&& 0 <= i < j < fields.len()
    &&& pair_overlaps(fields, i, j)
    &&& forall|a: int, b: int|
        0 <= a < b < fields.len() && pair_before(a, b, i, j) ==> !#[trigger] pair_overlaps(
            fields,
            a,
            b,
        )
}

/// `(i, j)` is the first pair of fields with the same name.
pub open spec fn first_duplicate(fields: Seq<FieldSpec>, i: int, j: int) -> bool {
    &&& 0 <= i < j < fields.len()
    &&& pair_same_name(fields, i, j)
    &&& forall|a: int, b: int|
        0 <= a < b < fields.len() && pair_before(a, b, i, j) ==> !#[trigger] pair_same_name(
            fields,
            a,
            b,
        )
}

/// `i` is the first field whose position is not well formed.
pub open spec fn first_invalid_position(fields: Seq<FieldSpec>, i: int) -> bool {
    &&& 0 <= i < fields.len()
    &&& !fields[i].pos.wf()
    &&& forall|k: int| 0 <= k < i ==> (#[trigger] fields[k]).pos.wf()
}

/// The error that reports the overlap of `first` and `second`: both names,
/// both ranges and the range they share.
pub open spec fn overlap_error(first: FieldSpec, second: FieldSpec) -> ErrorView {
    ErrorView::SchemaOverlap {
        first: first.name@,
        first_pos: first.pos,
        second: second.name@,
        second_pos: second.pos,
        overlap: FieldPos {
            start: first.pos.overlap_start(&second.pos),
            end: first.pos.overlap_end(&second.pos),
        },
    }
}

/// Looks for a field whose position is not well formed and returns the
/// index of the first.
pub fn find_invalid_position(fields: &[FieldSpec]) -> (r: Option<usize>)
    ensures
        match r {
            None => positions_wf(fields@),
            Some(i) => first_invalid_position(fields@, i as int),
        },
{
    let mut i: usize = 0;
    while i < fields.len()
        invariant
            i <= fields@.len(),
            forall|k: int| 0 <= k < i ==> (#[trigger] fields@[k]).pos.wf(),
        decreases fields@.len() - i,
    {
        let pos = &fields[i].pos;
        if pos.start == 0 || pos.end < pos.start {
            return Some(i);
        }
        i = i + 1;
    }
    None
}

/// Looks for two fields of the same name, pair by pair, and returns the
/// indices of the first such pair.
pub fn find_duplicate(fields: &[FieldSpec]) -> (r: Option<(usize, usize)>)
    ensures
        match r {
            None => distinct_names(fields@),
            Some((i, j)) => first_duplicate(fields@, i as int, j as int),
        },
{
    let n: usize = fields.len();
    let mut i: usize = 0;
    while i < n
        invariant
            i <= n == fields@.len(),
            forall|a: int, b: int|
                0 <= a < b < n && a < i ==> !#[trigger] pair_same_name(fields@, a, b),
        decreases n - i,
    {
        let mut j: usize = i + 1;
        while j < n
            invariant
                i < j <= n == fields@.len(),
                forall|a: int, b: int|
                    0 <= a < b < n && a < i ==> !#[trigger] pair_same_name(fields@, a, b),
                forall|b: int| i < b < j ==> !#[trigger] pair_same_name(fields@, i as int, b),
            decreases n - j,
        {
            if same_text(fields[i].name, fields[j].name) {
                return Some((i, j));
            }
            j = j + 1;
        }
        i = i + 1;
    }
    None
}

/// Looks for two fields that overlap, pair by pair, and returns the indices
/// of the first such pair with the range that the two share.
pub fn find_overlap(fields: &[FieldSpec]) -> (r: Option<(usize, usize, FieldPos)>)
    ensures
        match r {
            None => overlap_free(fields@),
            Some((i, j, shared)) => {
                &&& first_overlap(fields@, i as int, j as int)
                &&& shared.start == fields@[i as int].pos.overlap_start(&fields@[j as int].pos)
                &&& shared.end == fields@[i as int].pos.overlap_end(&fields@[j as int].pos)
            },
        },
{
    let n: usize = fields.len();
    let mut i: usize = 0;
    while i < n
        invariant
            i <= n == fields@.len(),
            forall|a: int, b: int|
                0 <= a < b < n && a < i ==> !#[trigger] pair_overlaps(fields@, a, b),
        decreases n - i,
    {
        let mut j: usize = i + 1;
        while j < n
            invariant
                i < j <= n == fields@.len(),
                forall|a: int, b: int|
                    0 <= a < b < n && a < i ==> !#[trigger] pair_overlaps(fields@, a, b),
                forall|b: int| i < b < j ==> !#[trigger] pair_overlaps(fields@, i as int, b),
            decreases n - j,
        {
            match fields[i].pos.intersection(&fields[j].pos) {
                Some(shared) => {
                    return Some((i, j, shared));
                },
                None => {},
            }
            j = j + 1;
        }
        i = i + 1;
    }
    None
}

/// Checks that no two fields overlap. The error names the first pair that
/// does, with both ranges and the range they share.
pub fn validate_schema(fields: &[FieldSpec]) -> (r: Result<(), FixedWidthError>)
    ensures
        r is Ok <==> overlap_free(fields@),
        r matches Err(e) ==> exists|i: int, j: int| #[trigger]
            first_overlap(fields@, i, j) && e@ == overlap_error(fields@[i], fields@[j]),
{
    match find_overlap(fields) {
        None => Ok(()),
        Some((i, j, shared)) => {
            let first = &fields[i];
            let second = &fields[j];
            Err(
                FixedWidthError::SchemaOverlap {
                    first: first.name,
                    first_pos: first.pos,
                    second: second.name,
                    second_pos: second.pos,
                    overlap: shared,
                },
            )
        },
    }
}

/// The error that a list of fields is refused with as a schema: that of the
/// first ill-formed position; failing that, of the first repeated name;
/// failing that, of the first overlap.
pub open spec fn is_schema_error(fields: Seq<FieldSpec>, e: ErrorView) -> bool {
    if !positions_wf(fields) {
        exists|i: int| #[trigger]
            first_invalid_position(fields, i) && e == (ErrorView::InvalidPosition {
                field: fields[i].name@,
                pos: fields[i].pos,
            })
    } else if !distinct_names(fields) {
        exists|i: int, j: int| #[trigger]
            first_duplicate(fields, i, j) && e == (ErrorView::DuplicateField {
                field: fields[j].name@,
            })
    } else {
        exists|i: int, j: int| #[trigger]
            first_overlap(fields, i, j) && e == overlap_error(fields[i], fields[j])
    }
}

/// A list of fields that has passed validation: every position is well
/// formed, no name occurs twice and no two fields overlap.
pub struct Schema {
    fields: Vec<FieldSpec>,
}

impl View for Schema {
    type V = Seq<FieldSpec>;

    closed spec fn view(&self) -> Seq<FieldSpec> {
        self.fields@
    }
}

impl Schema {
    #[verifier::type_invariant]
    spec fn valid(&self) -> bool {
        schema_valid(self.fields@)
    }

    /// Validates `fields` and makes a schema of them.
    pub fn new(fields: Vec<FieldSpec>) -> (r: Result<Schema, FixedWidthError>)
        ensures
            match r {
                Ok(schema) => schema_valid(fields@) && schema@ == fields@,
                Err(e) => !schema_valid(fields@) && is_schema_error(fields@, e@),
            },
    {
        match find_invalid_position(fields.as_slice()) {
            Some(i) => {
                let field = &fields[i];
                return Err(FixedWidthError::InvalidPosition { field: field.name, pos: field.pos });
            },
            None => {},
        }
        match find_duplicate(fields.as_slice()) {
            Some((i, j)) => {
                assert(pair_same_name(fields@, i as int, j as int));
                return Err(FixedWidthError::DuplicateField { field: fields[j].name });
            },
            None => {},
        }
        match validate_schema(fields.as_slice()) {
            Err(e) => Err(e),
            Ok(_) => Ok(Schema { fields }),
        }
    }

    /// The fields of the schema, in order.
    pub fn fields(&self) -> (r: &[FieldSpec])
        ensures
            r@ == self@,
            schema_valid(self@),
    {
        proof {
            use_type_invariant(self);
        }
        self.fields.as_slice()
    }

    /// The width of the records that the schema describes: the last position
    /// that any of its fields reaches, 0 where it has no field. A line has to
    /// have that many characters to be parsed.
    pub fn width(&self) -> (w: usize)
        ensures
            w == schema_width(self@),
    {
        let mut w: usize = 0;
        let mut i: usize = 0;
        while i < self.fields.len()
            invariant
                i <= self.fields@.len(),
                w == schema_width(self.fields@.take(i as int)),
            decreases self.fields@.len() - i,
        {
            assert(self.fields@.take(i + 1).drop_last() == self.fields@.take(i as int));
            if self.fields[i].pos.end > w {
                w = self.fields[i].pos.end;
            }
            i = i + 1;
        }
        assert(self.fields@.take(i as int) == self.fields@);
        w
    }

    /// Parses one line against the schema.
    ///
    /// On success the record holds, for every field of the schema, the value
    /// that the field's slice yields, and nothing else.
    pub fn parse(&self, line: &str) -> (r: Result<ParsedRecord, FixedWidthError>)
        ensures
            schema_valid(self@),
            match r {
                Ok(record) => {
                    &&& parse_outcome(line@, self@) == Ok::<_, ErrorView>(record@)
                    &&& forall|i: int|
                        #![trigger self@[i]]
                        0 <= i < self@.len() ==> {
                            &&& record@.contains_key(self@[i].name@)
                            &&& field_outcome(strip_line_end(line@), self@[i]) == Ok::<
                                _,
                                ErrorView,
                            >(record@[self@[i].name@])
                        }
                    &&& forall|name: Seq<char>| #[trigger]
                        record@.contains_key(name) ==> exists|i: int|
                            0 <= i < self@.len() && (#[trigger] self@[i]).name@ == name
                },
                Err(e) => parse_outcome(line@, self@) == Err::<Map<Seq<char>, ValueView>, _>(
                    e@,
                ),
            },
    {
        proof {
            use_type_invariant(self);
            lemma_record_of_names(strip_line_end(line@), self@);
            assert forall|i: int| 0 <= i < self@.len() implies {
                &&& record_of(strip_line_end(line@), self@).contains_key(
                    (#[trigger] self@[i]).name@,
                )
                &&& record_of(strip_line_end(line@), self@)[self@[i].name@] == field_outcome(
                    strip_line_end(line@),
                    self@[i],
                )->Ok_0
            } by {
                lemma_record_of_lookup(strip_line_end(line@), self@, i);
            }
        }
        let r = parse_line(line, self.fields.as_slice());
        proof {
            if r is Ok {
                lemma_parse_ok(line@, self@);
            }
        }
        r
    }
}

/// `ys` holds the fields of `xs` in another order: `ys[i]` is `xs[there[i]]`
/// and `xs[i]` is `ys[back[i]]`.
pub open spec fn reordered(
    xs: Seq<FieldSpec>,
    ys: Seq<FieldSpec>,
    there: Seq<int>,
    back: Seq<int>,
) -> bool {
    &&& xs.len() == ys.len() == there.len() == back.len()
    &&& forall|i: int|
        0 <= i < ys.len() ==> 0 <= #[trigger] there[i] < xs.len() && ys[i] == xs[there[i]]
            && back[there[i]] == i
    &&& forall|i: int|
        0 <= i < xs.len() ==> 0 <= #[trigger] back[i] < ys.len() && xs[i] == ys[back[i]]
            && there[back[i]] == i
}

/// A list of fields that passes validation passes it in any other order.
proof fn lemma_reordered_valid(
    xs: Seq<FieldSpec>,
    ys: Seq<FieldSpec>,
    there: Seq<int>,
    back: Seq<int>,
)
    requires
        reordered(xs, ys, there, back),
    ensures
        overlap_free(xs) ==> overlap_free(ys),
        distinct_names(xs) ==> distinct_names(ys),
        positions_wf(xs) ==> positions_wf(ys),
{
    if overlap_free(xs) {
        assert forall|i: int, j: int| 0 <= i < j < ys.len() implies !#[trigger] pair_overlaps(
            ys,
            i,
            j,
        ) by {
            let a = there[i];
            let b = there[j];
            assert(a != b);
            lemma_overlap_symmetric(xs[a].pos, xs[b].pos);
            if a < b {
                assert(!pair_overlaps(xs, a, b));
            } else {
                assert(!pair_overlaps(xs, b, a));
            }
        }
    }
    if distinct_names(xs) {
        assert forall|i: int, j: int| 0 <= i < j < ys.len() implies !#[trigger] pair_same_name(
            ys,
            i,
            j,
        ) by {
            let a = there[i];
            let b = there[j];
            assert(a != b);
            if a < b {
                assert(!pair_same_name(xs, a, b));
            } else {
                assert(!pair_same_name(xs, b, a));
            }
        }
    }
    if positions_wf(xs) {
        assert forall|i: int| 0 <= i < ys.len() implies (#[trigger] ys[i]).pos.wf() by {
            assert(xs[there[i]].pos.wf());
        }
    }
}

/// Validation does not depend on the order of the fields: a list and any
/// reordering of it get the same verdict.
pub proof fn lemma_validation_order_independent(
    xs: Seq<FieldSpec>,
    ys: Seq<FieldSpec>,
    there: Seq<int>,
    back: Seq<int>,
)
    requires
        reordered(xs, ys, there, back),
    ensures
        overlap_free(xs) == overlap_free(ys),
        schema_valid(xs) == schema_valid(ys),
{
    lemma_reordered_valid(xs, ys, there, back);
    lemma_reordered_valid(ys, xs, back, there);
}

/// Validation of two fields gives the same verdict in either order.
pub proof fn lemma_validation_symmetric(a: FieldSpec, b: FieldSpec)
    ensures
        overlap_free(seq![a, b]) == overlap_free(seq![b, a]),
        schema_valid(seq![a, b]) == schema_valid(seq![b, a]),
{
    lemma_validation_order_independent(seq![a, b], seq![b, a], seq![1, 0], seq![1, 0]);
}

/// Two fields pass the overlap check together, in either order, when one
/// ends before the other starts; so do two whose ranges touch, such as
/// `1..3` and `4..6`.
pub proof fn lemma_separate_fields_pass(a: FieldSpec, b: FieldSpec)
    requires
        a.pos.end < b.pos.start,
    ensures
        overlap_free(seq![a, b]),
        overlap_free(seq![b, a]),
{
    lemma_disjoint_when_before(a.pos, b.pos);
}

/// Two fields fail the overlap check, in either order, when the range of
/// one lies within the range of the other or equals it.
pub proof fn lemma_nested_fields_fail(outer: FieldSpec, inner: FieldSpec)
    requires
        inner.pos.wf(),
        outer.pos.start <= inner.pos.start,
        inner.pos.end <= outer.pos.end,
    ensures
        !overlap_free(seq![outer, inner]),
        !overlap_free(seq![inner, outer]),
{
    lemma_nested_overlap(outer.pos, inner.pos);
    assert(pair_overlaps(seq![outer, inner], 0, 1));
    assert(pair_overlaps(seq![inner, outer], 0, 1));
}

} // verus!
