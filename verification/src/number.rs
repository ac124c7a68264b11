//! Numbers as the interpreter holds them, the order and equality of their
//! bit patterns, and the work on numbers that is asked of the caller.

use vstd::prelude::*;

verus! {

/// Bit 63 of a binary64 pattern: the sign.
pub const SIGN_BIT: u64 = 0x8000_0000_0000_0000;

/// The pattern of positive infinity; every larger magnitude is a NaN.
pub const INFINITY_BITS: u64 = 0x7FF0_0000_0000_0000;

/// The pattern without its sign bit.
pub open spec fn magnitude(bits: u64) -> int {
    if bits >= SIGN_BIT {
        bits - SIGN_BIT
    } else {
        bits as int
    }
}

/// Whether the pattern encodes "not a number".
pub open spec fn is_nan(bits: u64) -> bool {
    magnitude(bits) > INFINITY_BITS
}

/// Whether the pattern encodes zero, of either sign.
pub open spec fn is_zero(bits: u64) -> bool {
    magnitude(bits) == 0
}

/// The position of a pattern that is not a NaN on the number line:
/// negative patterns mirror their magnitude below zero.
pub open spec fn order_key(bits: u64) -> int {
    if bits >= SIGN_BIT {
        -magnitude(bits)
    } else {
        magnitude(bits)
    }
}

/// Numeric equality of two patterns: a NaN equals nothing, the two zeros
/// equal each other.
pub open spec fn num_eq(a: u64, b: u64) -> bool {
    !is_nan(a) && !is_nan(b) && order_key(a) == order_key(b)
}

/// Numeric "less than" of two patterns: false as soon as one is a NaN.
pub open spec fn num_lt(a: u64, b: u64) -> bool {
    !is_nan(a) && !is_nan(b) && order_key(a) < order_key(b)
}

/// Numeric "less than or equal" of two patterns.
pub open spec fn num_le(a: u64, b: u64) -> bool {
    !is_nan(a) && !is_nan(b) && order_key(a) <= order_key(b)
}

/// A number of the language: a binary64 value held as its bit pattern,
/// together with the decimal text it is shown as. The library compares
/// numbers by `bits`; it never derives one field from the other.
#[derive(Debug, Clone, PartialEq)]
pub struct Number {
    pub bits: u64,
    pub text: String,
}

/// What a `Number` stands for in contracts.
pub struct NumberView {
    pub bits: u64,
    pub text: Seq<char>,
}

impl View for Number {
    type V = NumberView;

    open spec fn view(&self) -> NumberView {
        NumberView { bits: self.bits, text: self.text@ }
    }
}

impl Number {
    /// The number with the given bit pattern, shown as `text`.
    pub fn new(bits: u64, text: String) -> (r: Number)
        ensures
            r@ == (NumberView { bits, text: text@ }),
    {
        Number { bits, text }
    }

    /// A copy with the same view.
    pub fn duplicate(&self) -> (r: Number)
        ensures
            r@ == self@,
    {
        Number { bits: self.bits, text: self.text.clone() }
    }

    fn sort_key(&self) -> (r: i128)
        ensures
            r == order_key(self.bits),
    {
        if self.bits >= SIGN_BIT {
            let m: u64 = self.bits - SIGN_BIT;
            let k: i128 = m as i128;
            -k
        } else {
            self.bits as i128
        }
    }

    /// Whether the number is "not a number".
    pub fn is_nan(&self) -> (r: bool)
        ensures
            r == is_nan(self.bits),
    {
        if self.bits >= SIGN_BIT {
            self.bits - SIGN_BIT > INFINITY_BITS
        } else {
            self.bits > INFINITY_BITS
        }
    }

    /// Whether the number is zero, of either sign.
    pub fn is_zero(&self) -> (r: bool)
        ensures
            r == is_zero(self.bits),
    {
        self.bits == 0 || self.bits == SIGN_BIT
    }

    /// Whether the two numbers are equal as numbers.
    pub fn equals(&self, other: &Number) -> (r: bool)
        ensures
            r == num_eq(self.bits, other.bits),
    {
        !self.is_nan() && !other.is_nan() && self.sort_key() == other.sort_key()
    }

    /// Whether this number is less than `other`.
    pub fn less(&self, other: &Number) -> (r: bool)
        ensures
            r == num_lt(self.bits, other.bits),
    {
        !self.is_nan() && !other.is_nan() && self.sort_key() < other.sort_key()
    }

    /// Whether this number is less than `other` or equal to it.
    pub fn less_eq(&self, other: &Number) -> (r: bool)
        ensures
            r == num_le(self.bits, other.bits),
    {
        !self.is_nan() && !other.is_nan() && self.sort_key() <= other.sort_key()
    }
}


/// Work on numbers that the library asks of its caller. The operands and
/// the answer are binary64 values, each handed over as a `Number`.
#[derive(Debug, Clone, PartialEq)]
pub enum NumberRequest {
    /// The value of a number literal with this text: digits, optionally
    /// followed by a dot and more digits.
    Parse(String),
    /// The sum of the two values with these bit patterns.
    Add(u64, u64),
    /// The first value minus the second.
    Subtract(u64, u64),
    /// The product.
    Multiply(u64, u64),
    /// The first value divided by the second.
    Divide(u64, u64),
    /// The value with its sign changed.
    Negate(u64),
    /// The seconds since the Unix epoch, with their fraction.
    Clock,
}

/// What a request stands for in contracts.
pub enum NumberRequestView {
    Parse(Seq<char>),
    Add(u64, u64),
    Subtract(u64, u64),
    Multiply(u64, u64),
    Divide(u64, u64),
    Negate(u64),
    Clock,
}

impl View for NumberRequest {
    type V = NumberRequestView;

    open spec fn view(&self) -> NumberRequestView {
        match self {
            NumberRequest::Parse(text) => NumberRequestView::Parse(text@),
            NumberRequest::Add(a, b) => NumberRequestView::Add(*a, *b),
            NumberRequest::Subtract(a, b) => NumberRequestView::Subtract(*a, *b),
            NumberRequest::Multiply(a, b) => NumberRequestView::Multiply(*a, *b),
            NumberRequest::Divide(a, b) => NumberRequestView::Divide(*a, *b),
            NumberRequest::Negate(a) => NumberRequestView::Negate(*a),
            NumberRequest::Clock => NumberRequestView::Clock,
        }
    }
}


impl NumberRequest {
    /// A copy with the same view.
    pub fn duplicate(&self) -> (r: NumberRequest)
        ensures
            r@ == self@,
    {
        match self {
            NumberRequest::Parse(text) => NumberRequest::Parse(text.clone()),
            NumberRequest::Add(a, b) => NumberRequest::Add(*a, *b),
            NumberRequest::Subtract(a, b) => NumberRequest::Subtract(*a, *b),
            NumberRequest::Multiply(a, b) => NumberRequest::Multiply(*a, *b),
            NumberRequest::Divide(a, b) => NumberRequest::Divide(*a, *b),
            NumberRequest::Negate(a) => NumberRequest::Negate(*a),
            NumberRequest::Clock => NumberRequest::Clock,
        }
    }
}

} // verus!
