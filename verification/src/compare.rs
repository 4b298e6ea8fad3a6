//! The comparisons: `>`, `>=`, `<`, `<=`, `=` and `/=`.
//!
//! Two integers are compared as integers. Where one operand is a binary64
//! number both are compared as such, within a tolerance of 2^-52: the
//! [`FloatUnit`] takes their difference and compares it with the tolerance.
//! The contracts say which difference is taken and what is asked of it.

use vstd::prelude::*;
use crate::arith::{binary_complaints, binary_ready, float_of, int_operand, is_numeric};
use crate::notice::{notes, report, Notice};
use crate::unit::{FloatUnit, EPSILON, MINUS_EPSILON, MINUS_ONE};
use crate::value::{views, Atomic, LispType, Value};

verus! {

/// One of the six comparisons.
#[derive(Clone, Copy, Debug, PartialEq, Eq, Structural)]
pub enum Comparison {
    Greater,
    GreaterOrEqual,
    Less,
    LessOrEqual,
    Equal,
    Unequal,
}

impl Comparison {
    /// Whether the comparison holds of two integers.
    pub open spec fn holds(self, n: i64, m: i64) -> bool {
        match self {
            Comparison::Greater => n > m,
            Comparison::GreaterOrEqual => n >= m,
            Comparison::Less => n < m,
            Comparison::LessOrEqual => n <= m,
            Comparison::Equal => n == m,
            Comparison::Unequal => n != m,
        }
    }

    /// Whether the comparison holds of two integers.
    pub fn test(self, n: i64, m: i64) -> (b: bool)
        ensures
            b == self.holds(n, m),
    {
        match self {
            Comparison::Greater => n > m,
            Comparison::GreaterOrEqual => n >= m,
            Comparison::Less => n < m,
            Comparison::LessOrEqual => n <= m,
            Comparison::Equal => n == m,
            Comparison::Unequal => n != m,
        }
    }
}

/// Whether a comparison is decided on integers: the first operand is one, and
/// the second is no binary64 number.
pub open spec fn compared_whole(args: Seq<Value>) -> bool {
    binary_ready(args) && args[0] is Number && !(args[1] is Float)
}

/// Whether a comparison holds of a difference `d`, within the tolerance, as
/// the unit answers: `>` asks whether the tolerance is less than `d`, `<`
/// whether `d` is less than the tolerance negated, `>=` and `<=` the same with
/// "at most", `=` whether the absolute value of `d` is at most the tolerance,
/// and `/=` is the contrary of `=`.
pub open spec fn decided<U: FloatUnit>(unit: &U, how: Comparison, d: u64) -> bool {
    match how {
        Comparison::Greater => unit.less_of(EPSILON, d),
        Comparison::GreaterOrEqual => unit.at_most_of(MINUS_EPSILON, d),
        Comparison::Less => unit.less_of(d, MINUS_EPSILON),
        Comparison::LessOrEqual => unit.at_most_of(d, EPSILON),
        Comparison::Equal => unit.at_most_of(unit.magnitude_of(d), EPSILON),
        Comparison::Unequal => !unit.at_most_of(unit.magnitude_of(d), EPSILON),
    }
}

/// `t` for true, `nil` for false.
pub open spec fn truth_value(b: bool) -> Value {
    if b {
        Value::True
    } else {
        Value::Nil
    }
}

/// What a comparison returns. Without a number as the first operand, or
/// without a second operand, `nil`. For an integer and a second operand that is
/// no binary64 number, whether the comparison holds of the integers, with -1 in
/// place of a second operand that is not a number. Else whether it holds of the
/// difference of the two operands, both taken as binary64 numbers.
pub open spec fn compare_result<U: FloatUnit>(unit: &U, how: Comparison, args: Seq<Value>) -> Value {
    if !binary_ready(args) {
        Value::Nil
    } else if compared_whole(args) {
        truth_value(how.holds(args[0]->Number_0, int_operand(args[1])))
    } else {
        truth_value(
            decided(
                unit,
                how,
                unit.difference_of(float_of(unit, args[0]), float_of(unit, args[1])),
            ),
        )
    }
}

/// Whether a comparison holds of a difference, within the tolerance.
fn holds_within<U: FloatUnit>(unit: &U, how: Comparison, d: u64) -> (b: bool)
    ensures
        b == decided(unit, how, d),
{
    match how {
        Comparison::Greater => unit.less(EPSILON, d),
        Comparison::GreaterOrEqual => unit.at_most(MINUS_EPSILON, d),
        Comparison::Less => unit.less(d, MINUS_EPSILON),
        Comparison::LessOrEqual => unit.at_most(d, EPSILON),
        Comparison::Equal => unit.at_most(unit.magnitude(d), EPSILON),
        Comparison::Unequal => !unit.at_most(unit.magnitude(d), EPSILON),
    }
}

/// Compares the first two operands.
pub fn compare<U: FloatUnit>(
    unit: &U,
    how: Comparison,
    args: Vec<LispType>,
    journal: &mut Vec<Notice>,
) -> (r: LispType)
    ensures
        r@ == compare_result(unit, how, views(args@)),
        notes(final(journal)@) == notes(old(journal)@) + binary_complaints(views(args@)),
{
    if args.len() < 2 || !is_numeric(&args[0]) {
        report(journal, Notice::Operand);
        return LispType::nil();
    }
    if !is_numeric(&args[1]) {
        report(journal, Notice::Operand);
    }
    match (&args[0], &args[1]) {
        (LispType::Atom(Atomic::Number(n)), LispType::Atom(Atomic::Number(m))) => LispType::truth(
            how.test(*n, *m),
        ),
        (LispType::Atom(Atomic::Number(n)), LispType::Atom(Atomic::Float(y))) => {
            let d = unit.difference(unit.from_integer(*n), *y);
            LispType::truth(holds_within(unit, how, d))
        },
        (LispType::Atom(Atomic::Number(n)), _) => LispType::truth(how.test(*n, -1)),
        (LispType::Atom(Atomic::Float(x)), LispType::Atom(Atomic::Number(m))) => {
            let d = unit.difference(*x, unit.from_integer(*m));
            LispType::truth(holds_within(unit, how, d))
        },
        (LispType::Atom(Atomic::Float(x)), LispType::Atom(Atomic::Float(y))) => {
            let d = unit.difference(*x, *y);
            LispType::truth(holds_within(unit, how, d))
        },
        (LispType::Atom(Atomic::Float(x)), _) => {
            let d = unit.difference(*x, MINUS_ONE);
            LispType::truth(holds_within(unit, how, d))
        },
        _ => LispType::nil(),
    }
}

/// `>`.
pub fn gt<U: FloatUnit>(unit: &U, args: Vec<LispType>, journal: &mut Vec<Notice>) -> (r: LispType)
    ensures
        r@ == compare_result(unit, Comparison::Greater, views(args@)),
        notes(final(journal)@) == notes(old(journal)@) + binary_complaints(views(args@)),
{
    compare(unit, Comparison::Greater, args, journal)
}

/// `<`.
pub fn lt<U: FloatUnit>(unit: &U, args: Vec<LispType>, journal: &mut Vec<Notice>) -> (r: LispType)
    ensures
        r@ == compare_result(unit, Comparison::Less, views(args@)),
        notes(final(journal)@) == notes(old(journal)@) + binary_complaints(views(args@)),
{
    compare(unit, Comparison::Less, args, journal)
}

/// `>=`.
pub fn ge<U: FloatUnit>(unit: &U, args: Vec<LispType>, journal: &mut Vec<Notice>) -> (r: LispType)
    ensures
        r@ == compare_result(unit, Comparison::GreaterOrEqual, views(args@)),
        notes(final(journal)@) == notes(old(journal)@) + binary_complaints(views(args@)),
{
    compare(unit, Comparison::GreaterOrEqual, args, journal)
}

/// `<=`.
pub fn le<U: FloatUnit>(unit: &U, args: Vec<LispType>, journal: &mut Vec<Notice>) -> (r: LispType)
    ensures
        r@ == compare_result(unit, Comparison::LessOrEqual, views(args@)),
        notes(final(journal)@) == notes(old(journal)@) + binary_complaints(views(args@)),
{
    compare(unit, Comparison::LessOrEqual, args, journal)
}

/// `=`.
pub fn eq<U: FloatUnit>(unit: &U, args: Vec<LispType>, journal: &mut Vec<Notice>) -> (r: LispType)
    ensures
        r@ == compare_result(unit, Comparison::Equal, views(args@)),
        notes(final(journal)@) == notes(old(journal)@) + binary_complaints(views(args@)),
{
    compare(unit, Comparison::Equal, args, journal)
}

/// `/=`.
pub fn neq<U: FloatUnit>(unit: &U, args: Vec<LispType>, journal: &mut Vec<Notice>) -> (r: LispType)
    ensures
        r@ == compare_result(unit, Comparison::Unequal, views(args@)),
        notes(final(journal)@) == notes(old(journal)@) + binary_complaints(views(args@)),
{
    compare(unit, Comparison::Unequal, args, journal)
}

} // verus!
