//! Field positions: 1-based, inclusive character ranges within a line.

use crate::text::{all_digits, digits_value, parse_digits, to_chars};
use core::ops::Range;
use vstd::prelude::*;

verus! {

/// The place of a field within a line, counted as banking manuals do:
/// the first character of a line is position 1 and `end` belongs to the field.
#[derive(Debug, Clone, Copy, PartialEq, Eq, Structural)]
pub struct FieldPos {
    /// First position of the field (1-based, inclusive).
    pub start: usize,
    /// Last position of the field (1-based, inclusive).
    pub end: usize,
}

impl FieldPos {
    /// A position is well formed when it starts at 1 or later and holds at
    /// least one character.
    pub open spec fn wf(&self) -> bool {
        1 <= self.start <= self.end
    }

    /// Number of characters the field occupies.
    pub open spec fn spec_width(&self) -> int {
        self.end - self.start + 1
    }

    /// Builds a position, refusing `start == 0` and `end < start`.
    pub fn new(start: usize, end: usize) -> (r: Option<FieldPos>)
        ensures
            r.is_some() <==> 1 <= start <= end,
            r matches Some(p) ==> p.start == start && p.end == end && p.wf(),
    {
        if start == 0 || end < start {
            None
        } else {
            Some(FieldPos { start, end })
        }
    }

    /// The 0-based, half-open range of indices that the field covers.
    pub fn as_range(&self) -> (r: Range<usize>)
        requires
            self.wf(),
        ensures
            r.start == self.start - 1,
            r.end == self.end,
    {
        (self.start - 1)..self.end
    }

    /// Number of characters the field occupies.
    pub fn width(&self) -> (w: usize)
        requires
            self.wf(),
        ensures
            w == self.spec_width(),
            w >= 1,
    {
        self.end - self.start + 1
    }

    /// The position `k` (1-based) belongs to the field.
    pub open spec fn covers(&self, k: int) -> bool {
        self.start <= k <= self.end
    }

    /// First position that `self` and `other` could share: the later of the
    /// two starts.
    pub open spec fn overlap_start(&self, other: &FieldPos) -> usize {
        if self.start >= other.start {
            self.start
        } else {
            other.start
        }
    }

    /// Last position that `self` and `other` could share: the earlier of the
    /// two ends.
    pub open spec fn overlap_end(&self, other: &FieldPos) -> usize {
        if self.end <= other.end {
            self.end
        } else {
            other.end
        }
    }

    /// The two ranges intersect.
    pub open spec fn overlaps(&self, other: &FieldPos) -> bool {
        self.overlap_start(other) <= self.overlap_end(other)
    }

    /// The range that `self` and `other` have in common, if they intersect.
    pub fn intersection(&self, other: &FieldPos) -> (r: Option<FieldPos>)
        ensures
            r is Some <==> self.overlaps(other),
            r matches Some(p) ==> p.start == self.overlap_start(other) && p.end
                == self.overlap_end(other),
    {
        let start: usize = if self.start >= other.start {
            self.start
        } else {
            other.start
        };
        let end: usize = if self.end <= other.end {
            self.end
        } else {
            other.end
        };
        if start <= end {
            Some(FieldPos { start, end })
        } else {
            None
        }
    }
}

/// Two ranges intersect exactly when some position belongs to both.
pub proof fn lemma_overlap_is_shared_position(a: FieldPos, b: FieldPos)
    ensures
        a.overlaps(&b) <==> exists|k: int| a.covers(k) && b.covers(k),
{
    if a.overlaps(&b) {
        let k = a.overlap_start(&b) as int;
        assert(a.covers(k) && b.covers(k));
    }
}

/// Whether two ranges intersect does not depend on the order in which they
/// are given.
pub proof fn lemma_overlap_symmetric(a: FieldPos, b: FieldPos)
    ensures
        a.overlaps(&b) == b.overlaps(&a),
        a.overlap_start(&b) == b.overlap_start(&a),
        a.overlap_end(&b) == b.overlap_end(&a),
{
}

/// A range that ends before another starts does not intersect it; in
/// particular two ranges that merely touch (`1..3` and `4..6`) do not.
pub proof fn lemma_disjoint_when_before(a: FieldPos, b: FieldPos)
    requires
        a.end < b.start,
    ensures
        !a.overlaps(&b),
        !b.overlaps(&a),
{
}

/// A well-formed range intersects every range that contains it, and so every
/// range equal to it.
pub proof fn lemma_nested_overlap(outer: FieldPos, inner: FieldPos)
    requires
        inner.wf(),
        outer.start <= inner.start,
        inner.end <= outer.end,
    ensures
        outer.overlaps(&inner),
        inner.overlaps(&outer),
        outer.overlap_start(&inner) == inner.start,
        outer.overlap_end(&inner) == inner.end,
{
}

/// Why a text is not a position.
#[derive(Debug, Clone, Copy, PartialEq, Eq, Structural)]
pub enum PosError {
    /// The text is not two parts with `..` between them.
    Format,
    /// The part before `..` is not a number.
    InvalidStart,
    /// The part after `..` is not a number.
    InvalidEnd,
    /// The start is 0, or the end lies before the start.
    InvalidRange,
}

/// The characters of `s` at `i` and at `i + 1` are both `.`.
pub open spec fn dots_at(s: Seq<char>, i: int) -> bool {
    0 <= i && i + 1 < s.len() && s[i] == '.' && s[i + 1] == '.'
}

/// `..` occurs somewhere in `s`.
pub open spec fn has_dots(s: Seq<char>) -> bool {
    exists|i: int| dots_at(s, i)
}

/// `i` is the first place of `s` where `..` occurs.
pub open spec fn first_dots(s: Seq<char>, i: int) -> bool {
    &&& dots_at(s, i)
    &&& forall|k: int| 0 <= k < i ==> !dots_at(s, k)
}

/// The number that `s` denotes when read as a `usize`: `s` has to be digits,
/// at least one, with or without a `+` in front, and the number they denote
/// may not exceed `usize::MAX`.
pub open spec fn unsigned_text(s: Seq<char>) -> Option<nat> {
    let digits = if s.len() > 0 && s[0] == '+' {
        s.drop_first()
    } else {
        s
    };
    if digits.len() > 0 && all_digits(digits) && digits_value(digits) <= usize::MAX {
        Some(digits_value(digits))
    } else {
        None
    }
}

/// The position that the text `s` denotes, written as `start..end`, or the
/// reason why it denotes none. The text is cut at its first `..`; what
/// follows may not hold another.
pub open spec fn pos_text(s: Seq<char>) -> Result<(nat, nat), PosError> {
    if !has_dots(s) {
        Err(PosError::Format)
    } else {
        let i = choose|i: int| first_dots(s, i);
        let head = s.take(i);
        let tail = s.skip(i + 2);
        if has_dots(tail) {
            Err(PosError::Format)
        } else {
            match unsigned_text(head) {
                None => Err(PosError::InvalidStart),
                Some(start) => match unsigned_text(tail) {
                    None => Err(PosError::InvalidEnd),
                    Some(end) => if start == 0 || end < start {
                        Err(PosError::InvalidRange)
                    } else {
                        Ok((start, end))
                    },
                },
            }
        }
    }
}

/// Looks for the first `..` of `s` at or after `from`.
fn find_dots(s: &[char], from: usize) -> (r: Option<usize>)
    requires
        from <= s@.len(),
    ensures
        match r {
            Some(i) => from <= i && dots_at(s@, i as int) && forall|k: int|
                from <= k < i ==> !dots_at(s@, k),
            None => forall|k: int| from <= k ==> !dots_at(s@, k),
        },
{
    let mut i: usize = from;
    while i < s.len() && i + 1 < s.len()
        invariant
            from <= i <= s@.len(),
            forall|k: int| from <= k < i ==> !dots_at(s@, k),
        decreases s@.len() - i,
    {
        if s[i] == '.' && s[i + 1] == '.' {
            return Some(i);
        }
        i = i + 1;
    }
    None
}

/// Reads the window `lo..hi` of `s` as a `usize`.
fn read_unsigned(s: &[char], lo: usize, hi: usize) -> (r: Option<usize>)
    requires
        lo <= hi <= s@.len(),
    ensures
        r is Some <==> unsigned_text(s@.subrange(lo as int, hi as int)) is Some,
        r matches Some(n) ==> unsigned_text(s@.subrange(lo as int, hi as int)) == Some(n as nat),
{
    let ghost whole = s@.subrange(lo as int, hi as int);
    let start: usize = if lo < hi && s[lo] == '+' {
        lo + 1
    } else {
        lo
    };
    assert(start > lo ==> whole.drop_first() == s@.subrange(start as int, hi as int));
    if start == hi {
        return None;
    }
    match parse_digits(s, start, hi, usize::MAX as u64) {
        Some(n) => Some(n as usize),
        None => None,
    }
}

/// Reads a position written as `start..end`, both ends counted from 1 and
/// both part of the field.
pub fn parse_pos(text: &str) -> (r: Result<(usize, usize), PosError>)
    ensures
        match r {
            Ok((start, end)) => pos_text(text@) == Ok::<_, PosError>((start as nat, end as nat))
                && 1 <= start <= end,
            Err(e) => pos_text(text@) == Err::<(nat, nat), _>(e),
        },
{
    let chars = to_chars(text);
    let s = chars.as_slice();
    let n: usize = s.len();
    let cut: usize = match find_dots(s, 0) {
        Some(i) => i,
        None => {
            return Err(PosError::Format);
        },
    };
    proof {
        assert(first_dots(s@, cut as int));
        let chosen = choose|i: int| first_dots(s@, i);
        assert(chosen == cut);
        assert(s@.take(cut as int) == s@.subrange(0, cut as int));
        assert(s@.skip(cut + 2) == s@.subrange(cut + 2, n as int));
        assert forall|k: int| #[trigger]
            dots_at(s@.skip(cut + 2), k) implies dots_at(s@, k + cut + 2) by {}
    }
    match find_dots(s, cut + 2) {
        Some(again) => {
            assert(dots_at(s@.skip(cut + 2), again - (cut + 2)));
            return Err(PosError::Format);
        },
        None => {},
    }
    let start: usize = match read_unsigned(s, 0, cut) {
        Some(start) => start,
        None => {
            return Err(PosError::InvalidStart);
        },
    };
    let end: usize = match read_unsigned(s, cut + 2, n) {
        Some(end) => end,
        None => {
            return Err(PosError::InvalidEnd);
        },
    };
    if start == 0 || end < start {
        return Err(PosError::InvalidRange);
    }
    Ok((start, end))
}

} // verus!
