//! Values extracted from a line, before they are bound to a record type.

use vstd::arithmetic::power::pow;
use vstd::prelude::*;

verus! {

/// What a field of a line holds once it has been coerced according to its
/// kind.
#[derive(Debug, Clone, PartialEq, Eq)]
pub enum Value {
    /// Text.
    Alpha(String),
    /// A whole number.
    Numeric(i64),
    /// The fixed-point number `raw / 10^scale`: `raw` holds the digits as
    /// they were read and `scale` says how many of them are fractional.
    Decimal { raw: i64, scale: u8 },
}

/// The mathematical content of a [`Value`].
pub enum ValueView {
    Alpha(Seq<char>),
    Numeric(int),
    Decimal { raw: int, scale: nat },
}

impl View for Value {
    type V = ValueView;

    open spec fn view(&self) -> ValueView {
        match self {
            Value::Alpha(s) => ValueView::Alpha(s@),
            Value::Numeric(n) => ValueView::Numeric(*n as int),
            Value::Decimal { raw, scale } => ValueView::Decimal {
                raw: *raw as int,
                scale: *scale as nat,
            },
        }
    }
}

impl Value {
    /// The number of a `Numeric` value; nothing for the other kinds.
    pub fn as_i64(&self) -> (r: Option<i64>)
        ensures
            self@ matches ValueView::Numeric(n) ==> r == Some(n as i64),
            !(self@ is Numeric) ==> r is None,
    {
        match self {
            Value::Numeric(n) => Some(*n),
            _ => None,
        }
    }

    /// The text of an `Alpha` value; nothing for the other kinds.
    pub fn as_str(&self) -> (r: Option<&str>)
        ensures
            self@ matches ValueView::Alpha(s) ==> r matches Some(t) && t@ == s,
            !(self@ is Alpha) ==> r is None,
    {
        match self {
            Value::Alpha(s) => Some(s.as_str()),
            _ => None,
        }
    }

    /// The digits and the scale of a `Decimal` value; nothing for the other
    /// kinds.
    pub fn as_decimal(&self) -> (r: Option<(i64, u8)>)
        ensures
            self@ matches ValueView::Decimal { raw, scale } ==> r == Some(
                (raw as i64, scale as u8),
            ),
            !(self@ is Decimal) ==> r is None,
    {
        match self {
            Value::Decimal { raw, scale } => Some((*raw, *scale)),
            _ => None,
        }
    }

    /// A copy of the value.
    pub fn duplicate(&self) -> (r: Value)
        ensures
            r@ == self@,
    {
        match self {
            Value::Alpha(s) => Value::Alpha(s.clone()),
            Value::Numeric(n) => Value::Numeric(*n),
            Value::Decimal { raw, scale } => Value::Decimal { raw: *raw, scale: *scale },
        }
    }
}

/// The factor by which the digits of a decimal of scale `scale` exceed the
/// number they stand for: 10 to the power of `scale`. Nothing where 64 bits
/// with sign have no room for it, which is from a scale of 19 on.
pub fn pow10(scale: u8) -> (r: Option<i64>)
    ensures
        r is Some <==> scale <= 18,
        r matches Some(factor) ==> factor == pow(10, scale as nat),
{
    proof {
        reveal_with_fuel(pow, 20);
    }
    match scale {
        0 => Some(1),
        1 => Some(10),
        2 => Some(100),
        3 => Some(1_000),
        4 => Some(10_000),
        5 => Some(100_000),
        6 => Some(1_000_000),
        7 => Some(10_000_000),
        8 => Some(100_000_000),
        9 => Some(1_000_000_000),
        10 => Some(10_000_000_000),
        11 => Some(100_000_000_000),
        12 => Some(1_000_000_000_000),
        13 => Some(10_000_000_000_000),
        14 => Some(100_000_000_000_000),
        15 => Some(1_000_000_000_000_000),
        16 => Some(10_000_000_000_000_000),
        17 => Some(100_000_000_000_000_000),
        18 => Some(1_000_000_000_000_000_000),
        _ => None,
    }
}

} // verus!
