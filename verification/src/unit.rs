//! The arithmetic that the interpreter does not do itself.

use vstd::prelude::*;

verus! {

/// The bits of 0.0.
pub const ZERO: u64 = 0;

/// The bits of 1.0.
pub const ONE: u64 = 0x3FF0_0000_0000_0000;

/// The bits of -1.0, which stands in for an operand that is not a number.
pub const MINUS_ONE: u64 = 0xBFF0_0000_0000_0000;

/// The bits of 2^-52, the tolerance of the comparisons.
pub const EPSILON: u64 = 0x3CB0_0000_0000_0000;

/// The bits of -(2^-52).
pub const MINUS_EPSILON: u64 = 0xBCB0_0000_0000_0000;

/// The bits of the binary64 number nearest to pi.
pub const PI: u64 = 0x4009_21FB_5444_2D18;

/// A digit of a decimal numeral.
pub open spec fn is_digit(c: char) -> bool {
    '0' <= c <= '9'
}

/// One or more digits.
pub open spec fn is_digits(s: Seq<char>) -> bool {
    s.len() > 0 && forall|i: int| 0 <= i < s.len() ==> is_digit(#[trigger] s[i])
}

/// Digits with at most one point among them, the last character a digit.
pub open spec fn is_unsigned_real(s: Seq<char>) -> bool {
    is_digits(s) || exists|k: int|
        0 <= k < s.len() && #[trigger] s[k] == '.' && (k == 0 || is_digits(s.take(k)))
            && is_digits(s.skip(k + 1))
}

/// A numeral with an optional sign, an optional point, and a digit at its end.
pub open spec fn real_shaped(s: Seq<char>) -> bool {
    if s.len() > 0 && (s[0] == '-' || s[0] == '+') {
        is_unsigned_real(s.skip(1))
    } else {
        is_unsigned_real(s)
    }
}

/// A text, as contracts speak of it.
pub type Text = Seq<char>;

/// Binary64 arithmetic, on bit patterns.
///
/// The interpreter decides what is computed and in which order; an implementor
/// computes it, as IEEE 754 has it. Each method has a name for what it returns,
/// and claims only that it returns that: the same result for the same
/// arguments. What the result is, is the implementor's business.
pub trait FloatUnit {
    /// What `parse` returns.
    spec fn parse_of(&self, text: Text) -> u64;

    /// What `render` returns.
    spec fn render_of(&self, x: u64) -> Text;

    /// What `from_integer` returns.
    spec fn integer_of(&self, n: i64) -> u64;

    /// What `sum` returns.
    spec fn sum_of(&self, a: u64, b: u64) -> u64;

    /// What `difference` returns.
    spec fn difference_of(&self, a: u64, b: u64) -> u64;

    /// What `product` returns.
    spec fn product_of(&self, a: u64, b: u64) -> u64;

    /// What `quotient` returns.
    spec fn quotient_of(&self, a: u64, b: u64) -> u64;

    /// What `larger` returns.
    spec fn larger_of(&self, a: u64, b: u64) -> u64;

    /// What `smaller` returns.
    spec fn smaller_of(&self, a: u64, b: u64) -> u64;

    /// What `negated` returns.
    spec fn negated_of(&self, a: u64) -> u64;

    /// What `magnitude` returns.
    spec fn magnitude_of(&self, a: u64) -> u64;

    /// What `less` returns.
    spec fn less_of(&self, a: u64, b: u64) -> bool;

    /// What `at_most` returns.
    spec fn at_most_of(&self, a: u64, b: u64) -> bool;

    /// The number that a numeral denotes.
    fn parse(&self, text: &str) -> (r: u64)
        requires
            real_shaped(text@),
        ensures
            r == self.parse_of(text@),
    ;

    /// A numeral for a number.
    fn render(&self, x: u64) -> (r: String)
        ensures
            r@ == self.render_of(x),
    ;

    /// The number nearest to an integer.
    fn from_integer(&self, n: i64) -> (r: u64)
        ensures
            r == self.integer_of(n),
    ;

    /// `a + b`.
    fn sum(&self, a: u64, b: u64) -> (r: u64)
        ensures
            r == self.sum_of(a, b),
    ;

    /// `a - b`.
    fn difference(&self, a: u64, b: u64) -> (r: u64)
        ensures
            r == self.difference_of(a, b),
    ;

    /// `a * b`.
    fn product(&self, a: u64, b: u64) -> (r: u64)
        ensures
            r == self.product_of(a, b),
    ;

    /// `a / b`.
    fn quotient(&self, a: u64, b: u64) -> (r: u64)
        ensures
            r == self.quotient_of(a, b),
    ;

    /// The larger of two numbers; the other one if one is not a number.
    fn larger(&self, a: u64, b: u64) -> (r: u64)
        ensures
            r == self.larger_of(a, b),
    ;

    /// The smaller of two numbers; the other one if one is not a number.
    fn smaller(&self, a: u64, b: u64) -> (r: u64)
        ensures
            r == self.smaller_of(a, b),
    ;

    /// `-a`.
    fn negated(&self, a: u64) -> (r: u64)
        ensures
            r == self.negated_of(a),
    ;

    /// The absolute value of `a`.
    fn magnitude(&self, a: u64) -> (r: u64)
        ensures
            r == self.magnitude_of(a),
    ;

    /// `a < b`.
    fn less(&self, a: u64, b: u64) -> (r: bool)
        ensures
            r == self.less_of(a, b),
    ;

    /// `a <= b`.
    fn at_most(&self, a: u64, b: u64) -> (r: bool)
        ensures
            r == self.at_most_of(a, b),
    ;
}

} // verus!
