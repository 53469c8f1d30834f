//! Character classes, trimming and decimal numerals over sequences of
//! characters.

use vstd::prelude::*;

verus! {

/// Carriage return or line feed: the characters that end a line.
pub open spec fn line_end(c: char) -> bool {
    c == '\r' || c == '\n'
}

/// The characters that Unicode counts as white space (`White_Space`).
pub open spec fn white_space(c: char) -> bool {
    ||| '\u{0009}' <= c <= '\u{000D}'
    ||| c == '\u{0020}'
    ||| c == '\u{0085}'
    ||| c == '\u{00A0}'
    ||| c == '\u{1680}'
    ||| '\u{2000}' <= c <= '\u{200A}'
    ||| c == '\u{2028}'
    ||| c == '\u{2029}'
    ||| c == '\u{202F}'
    ||| c == '\u{205F}'
    ||| c == '\u{3000}'
}

/// One of the ten ASCII decimal digits.
pub open spec fn ascii_digit(c: char) -> bool {
    '0' <= c <= '9'
}

/// The number a digit stands for; 0 for any other character.
pub open spec fn digit_value(c: char) -> nat {
    if ascii_digit(c) {
        (c as int - '0' as int) as nat
    } else {
        0
    }
}

/// `s` without the line-end characters at its end.
pub open spec fn strip_line_end(s: Seq<char>) -> Seq<char>
    decreases s.len(),
{
    if s.len() > 0 && line_end(s.last()) {
        strip_line_end(s.drop_last())
    } else {
        s
    }
}

/// `s` without the white space at its end.
pub open spec fn trim_end(s: Seq<char>) -> Seq<char>
    decreases s.len(),
{
    if s.len() > 0 && white_space(s.last()) {
        trim_end(s.drop_last())
    } else {
        s
    }
}

/// `s` without the white space at its start.
pub open spec fn trim_start(s: Seq<char>) -> Seq<char>
    decreases s.len(),
{
    if s.len() > 0 && white_space(s.first()) {
        trim_start(s.drop_first())
    } else {
        s
    }
}

/// `s` without the white space at either end.
pub open spec fn trim(s: Seq<char>) -> Seq<char> {
    trim_start(trim_end(s))
}

/// Every character of `s` is an ASCII decimal digit.
pub open spec fn all_digits(s: Seq<char>) -> bool {
    forall|i: int| 0 <= i < s.len() ==> ascii_digit(#[trigger] s[i])
}

/// Every character of `s` is white space.
pub open spec fn all_white_space(s: Seq<char>) -> bool {
    forall|i: int| 0 <= i < s.len() ==> white_space(#[trigger] s[i])
}

/// The number that `s` denotes when read as a decimal numeral, most
/// significant digit first.
pub open spec fn digits_value(s: Seq<char>) -> nat
    decreases s.len(),
{
    if s.len() == 0 {
        0
    } else {
        10 * digits_value(s.drop_last()) + digit_value(s.last())
    }
}

/// The character that writes the digit `d`.
pub open spec fn digit_char(d: nat) -> char {
    ('0' as nat + d) as char
}

/// The numeral of `width` digits that denotes `n`, with zeros in front where
/// `n` needs fewer digits (and without the digits that do not fit, where it
/// needs more).
pub open spec fn decimal_digits(n: nat, width: nat) -> Seq<char>
    decreases width,
{
    if width == 0 {
        Seq::empty()
    } else {
        decimal_digits(n / 10, (width - 1) as nat).push(digit_char(n % 10))
    }
}

/// Whether `c` is a carriage return or a line feed.
pub fn is_line_end(c: char) -> (b: bool)
    ensures
        b == line_end(c),
{
    c == '\r' || c == '\n'
}

/// Whether `c` is white space.
pub fn is_white_space(c: char) -> (b: bool)
    ensures
        b == white_space(c),
{
    (c >= '\u{0009}' && c <= '\u{000D}') || c == '\u{0020}' || c == '\u{0085}' || c == '\u{00A0}'
        || c == '\u{1680}' || (c >= '\u{2000}' && c <= '\u{200A}') || c == '\u{2028}' || c
        == '\u{2029}' || c == '\u{202F}' || c == '\u{205F}' || c == '\u{3000}'
}

/// Whether `c` is one of the digits `0` to `9`.
pub fn is_ascii_digit(c: char) -> (b: bool)
    ensures
        b == ascii_digit(c),
{
    c >= '0' && c <= '9'
}

/// The characters of `s`, one element each.
pub fn to_chars(s: &str) -> (v: Vec<char>)
    ensures
        v@ == s@,
{
    let mut v: Vec<char> = Vec::new();
    for c in it: s.chars()
        invariant
            v@ == it.seq().take(it.index() as int),
            it.seq() == s@,
    {
        v.push(c);
    }
    v
}

/// Whether `a` and `b` hold the same characters.
pub fn same_text(a: &str, b: &str) -> (r: bool)
    ensures
        r == (a@ == b@),
{
    let x = to_chars(a);
    let y = to_chars(b);
    if x.len() != y.len() {
        return false;
    }
    let mut i: usize = 0;
    while i < x.len()
        invariant
            i <= x@.len() == y@.len(),
            x@ == a@,
            y@ == b@,
            forall|k: int| 0 <= k < i ==> x@[k] == y@[k],
        decreases x@.len() - i,
    {
        if x[i] != y[i] {
            return false;
        }
        i = i + 1;
    }
    assert(x@ =~= y@);
    true
}

/// Number of characters of `s` that are left when the line-end characters
/// at its end are taken away.
pub fn line_body_len(s: &[char]) -> (n: usize)
    ensures
        n <= s@.len(),
        s@.take(n as int) == strip_line_end(s@),
{
    let mut n: usize = s.len();
    assert(s@.take(n as int) == s@);
    while n > 0 && is_line_end(s[n - 1])
        invariant
            n <= s@.len(),
            strip_line_end(s@.take(n as int)) == strip_line_end(s@),
        decreases n,
    {
        assert(s@.take(n as int).drop_last() == s@.take(n - 1));
        n = n - 1;
    }
    n
}

/// End of the window `lo..hi` of `s` once the white space at its end is
/// taken away.
pub(crate) fn trim_end_index(s: &[char], lo: usize, hi: usize) -> (r: usize)
    requires
        lo <= hi <= s@.len(),
    ensures
        lo <= r <= hi,
        s@.subrange(lo as int, r as int) == trim_end(s@.subrange(lo as int, hi as int)),
{
    let mut r: usize = hi;
    while r > lo && is_white_space(s[r - 1])
        invariant
            lo <= r <= hi <= s@.len(),
            trim_end(s@.subrange(lo as int, r as int)) == trim_end(
                s@.subrange(lo as int, hi as int),
            ),
        decreases r,
    {
        assert(s@.subrange(lo as int, r as int).drop_last() == s@.subrange(lo as int, r - 1));
        r = r - 1;
    }
    r
}

/// Start of the window `lo..hi` of `s` once the white space at its start is
/// taken away.
pub(crate) fn trim_start_index(s: &[char], lo: usize, hi: usize) -> (r: usize)
    requires
        lo <= hi <= s@.len(),
    ensures
        lo <= r <= hi,
        s@.subrange(r as int, hi as int) == trim_start(s@.subrange(lo as int, hi as int)),
{
    let mut r: usize = lo;
    while r < hi && is_white_space(s[r])
        invariant
            lo <= r <= hi <= s@.len(),
            trim_start(s@.subrange(r as int, hi as int)) == trim_start(
                s@.subrange(lo as int, hi as int),
            ),
        decreases hi - r,
    {
        assert(s@.subrange(r as int, hi as int).drop_first() == s@.subrange(r + 1, hi as int));
        r = r + 1;
    }
    r
}

/// A numeral never denotes less than one of its prefixes.
pub proof fn lemma_digits_value_prefix(s: Seq<char>, n: int)
    requires
        0 <= n <= s.len(),
    ensures
        digits_value(s.take(n)) <= digits_value(s),
    decreases s.len(),
{
    if n == s.len() {
        assert(s.take(n) == s);
    } else {
        assert(s.drop_last().take(n) == s.take(n));
        lemma_digits_value_prefix(s.drop_last(), n);
    }
}

/// Writing out the number that a numeral denotes, in as many digits as the
/// numeral has, gives the numeral back.
pub proof fn lemma_digits_round_trip(s: Seq<char>)
    requires
        all_digits(s),
    ensures
        decimal_digits(digits_value(s), s.len()) == s,
    decreases s.len(),
{
    if s.len() > 0 {
        let front = s.drop_last();
        let d = digit_value(s.last());
        assert(ascii_digit(s[s.len() - 1]));
        assert(all_digits(front)) by {
            assert forall|i: int| 0 <= i < front.len() implies ascii_digit(#[trigger] front[i]) by {
                assert(front[i] == s[i]);
            }
        }
        lemma_digits_round_trip(front);
        assert(d < 10);
        assert(digits_value(s) == 10 * digits_value(front) + d);
        assert(digits_value(s) / 10 == digits_value(front));
        assert(digits_value(s) % 10 == d);
        assert(digit_char(d) == s.last());
        assert(decimal_digits(digits_value(s), s.len()) =~= s);
    } else {
        assert(decimal_digits(digits_value(s), s.len()) =~= s);
    }
}

/// Nothing is left of a sequence of white space once it is trimmed.
pub proof fn lemma_blank_trims_to_nothing(s: Seq<char>)
    requires
        all_white_space(s),
    ensures
        trim_end(s).len() == 0,
        trim(s).len() == 0,
    decreases s.len(),
{
    if s.len() > 0 {
        assert(white_space(s[s.len() - 1]));
        let front = s.drop_last();
        assert forall|i: int| 0 <= i < front.len() implies white_space(#[trigger] front[i]) by {
            assert(front[i] == s[i]);
        }
        lemma_blank_trims_to_nothing(front);
    }
}

/// Reads the window `lo..hi` of `s` as a decimal numeral without sign that
/// denotes at most `max`. The empty window reads as 0.
pub(crate) fn parse_digits(s: &[char], lo: usize, hi: usize, max: u64) -> (r: Option<u64>)
    requires
        lo <= hi <= s@.len(),
    ensures
        r is Some <==> all_digits(s@.subrange(lo as int, hi as int)) && digits_value(
            s@.subrange(lo as int, hi as int),
        ) <= max,
        r matches Some(n) ==> n == digits_value(s@.subrange(lo as int, hi as int)),
{
    let ghost whole = s@.subrange(lo as int, hi as int);
    let mut acc: u64 = 0;
    let mut i: usize = lo;
    while i < hi
        invariant
            lo <= i <= hi <= s@.len(),
            whole == s@.subrange(lo as int, hi as int),
            all_digits(whole.take(i - lo)),
            acc <= max,
            acc == digits_value(whole.take(i - lo)),
        decreases hi - i,
    {
        let c = s[i];
        let ghost next = whole.take(i - lo + 1);
        assert(next.drop_last() == whole.take(i - lo));
        assert(next.last() == c);
        if !is_ascii_digit(c) {
            assert(!ascii_digit(whole[i - lo]));
            return None;
        }
        let d: u64 = (c as u32 - '0' as u32) as u64;
        if d > max || acc > (max - d) / 10 {
            proof {
                lemma_digits_value_prefix(whole, i - lo + 1);
            }
            return None;
        }
        acc = acc * 10 + d;
        i = i + 1;
    }
    assert(whole.take(hi - lo) == whole);
    Some(acc)
}

} // verus!
