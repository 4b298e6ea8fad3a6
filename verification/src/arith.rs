//! The arithmetic builtins: `+`, `-`, `*`, `/`, `abs`, `max` and `min`.
//!
//! Integers are added, subtracted and multiplied with wrap-around. Where an
//! operand is a binary64 number the result is one too, and is computed by the
//! [`FloatUnit`]; `/` always computes its result there. The contracts say which
//! operations the unit is asked for, on which operands and in which order. An
//! operand that is not a number is reported, and then left out or taken to be
//! -1.

use vstd::prelude::*;
use crate::notice::{notes, report, Note, Notice};
use crate::unit::{FloatUnit, MINUS_ONE, ONE, ZERO};
use crate::value::{views, Atomic, LispType, Value};

verus! {

broadcast use crate::value::lemma_list_view;

/// Whether one of the values is a binary64 number.
pub open spec fn has_float(args: Seq<Value>) -> bool
    decreases args.len(),
{
    if args.len() == 0 {
        false
    } else {
        has_float(args.drop_last()) || args.last() is Float
    }
}

/// One report for each value that is not a number.
pub open spec fn operand_complaints(args: Seq<Value>) -> Seq<Note>
    decreases args.len(),
{
    if args.len() == 0 {
        Seq::empty()
    } else if args.last().numeric() {
        operand_complaints(args.drop_last())
    } else {
        operand_complaints(args.drop_last()).push(Note::Operand)
    }
}

/// The integers among the values, added up with wrap-around.
pub open spec fn int_sum(args: Seq<Value>) -> i64
    decreases args.len(),
{
    if args.len() == 0 {
        0
    } else {
        match args.last() {
            Value::Number(n) => int_sum(args.drop_last()).wrapping_add(n),
            _ => int_sum(args.drop_last()),
        }
    }
}

/// The integers among the values, multiplied with wrap-around.
pub open spec fn int_product(args: Seq<Value>) -> i64
    decreases args.len(),
{
    if args.len() == 0 {
        1
    } else {
        match args.last() {
            Value::Number(n) => int_product(args.drop_last()).wrapping_mul(n),
            _ => int_product(args.drop_last()),
        }
    }
}

/// An operand as a binary64 number: a binary64 number as it is, an integer as
/// the unit converts it, and -1.0 for what is not a number.
pub open spec fn float_of<U: FloatUnit>(unit: &U, v: Value) -> u64 {
    match v {
        Value::Number(n) => unit.integer_of(n),
        Value::Float(x) => x,
        _ => MINUS_ONE,
    }
}

/// The binary64 numbers among the values, added from left to right to 0.0.
pub open spec fn float_sum<U: FloatUnit>(unit: &U, args: Seq<Value>) -> u64
    decreases args.len(),
{
    if args.len() == 0 {
        ZERO
    } else {
        match args.last() {
            Value::Float(x) => unit.sum_of(float_sum(unit, args.drop_last()), x),
            _ => float_sum(unit, args.drop_last()),
        }
    }
}

/// The binary64 numbers among the values, multiplied from left to right with
/// 1.0.
pub open spec fn float_product<U: FloatUnit>(unit: &U, args: Seq<Value>) -> u64
    decreases args.len(),
{
    if args.len() == 0 {
        ONE
    } else {
        match args.last() {
            Value::Float(x) => unit.product_of(float_product(unit, args.drop_last()), x),
            _ => float_product(unit, args.drop_last()),
        }
    }
}

/// What `+` returns: the sum of the integers if no operand is a binary64
/// number; else the sum of the binary64 numbers, to which the sum of the
/// integers is added.
pub open spec fn add_result<U: FloatUnit>(unit: &U, args: Seq<Value>) -> Value {
    if has_float(args) {
        Value::Float(unit.sum_of(float_sum(unit, args), unit.integer_of(int_sum(args))))
    } else {
        Value::Number(int_sum(args))
    }
}

/// What `*` returns: the product of the integers if no operand is a binary64
/// number; else the product of the binary64 numbers, multiplied with the
/// product of the integers.
pub open spec fn mul_result<U: FloatUnit>(unit: &U, args: Seq<Value>) -> Value {
    if has_float(args) {
        Value::Float(
            unit.product_of(float_product(unit, args), unit.integer_of(int_product(args))),
        )
    } else {
        Value::Number(int_product(args))
    }
}

/// `+`: the sum of the operands that are numbers.
pub fn add<U: FloatUnit>(unit: &U, args: Vec<LispType>, journal: &mut Vec<Notice>) -> (r: LispType)
    ensures
        r@ == add_result(unit, views(args@)),
        notes(final(journal)@) == notes(old(journal)@) + operand_complaints(views(args@)),
{
    let mut whole: i64 = 0;
    let mut fraction: u64 = ZERO;
    let mut mixed = false;
    let mut i: usize = 0;
    while i < args.len()
        invariant
            i <= args.len(),
            whole == int_sum(views(args@).take(i as int)),
            fraction == float_sum(unit, views(args@).take(i as int)),
            mixed == has_float(views(args@).take(i as int)),
            notes(journal@) == notes(old(journal)@) + operand_complaints(
                views(args@).take(i as int),
            ),
        decreases args.len() - i,
    {
        proof {
            assert(views(args@).take(i + 1).drop_last() == views(args@).take(i as int));
        }
        match &args[i] {
            LispType::Atom(Atomic::Number(n)) => {
                whole = whole.wrapping_add(*n);
            },
            LispType::Atom(Atomic::Float(x)) => {
                fraction = unit.sum(fraction, *x);
                mixed = true;
            },
            _ => {
                report(journal, Notice::Operand);
            },
        }
        i = i + 1;
    }
    proof {
        assert(views(args@).take(args.len() as int) == views(args@));
    }
    if mixed {
        LispType::Atom(Atomic::Float(unit.sum(fraction, unit.from_integer(whole))))
    } else {
        LispType::Atom(Atomic::Number(whole))
    }
}

/// `*`: the product of the operands that are numbers.
pub fn mul<U: FloatUnit>(unit: &U, args: Vec<LispType>, journal: &mut Vec<Notice>) -> (r: LispType)
    ensures
        r@ == mul_result(unit, views(args@)),
        notes(final(journal)@) == notes(old(journal)@) + operand_complaints(views(args@)),
{
    let mut whole: i64 = 1;
    let mut fraction: u64 = ONE;
    let mut mixed = false;
    let mut i: usize = 0;
    while i < args.len()
        invariant
            i <= args.len(),
            whole == int_product(views(args@).take(i as int)),
            fraction == float_product(unit, views(args@).take(i as int)),
            mixed == has_float(views(args@).take(i as int)),
            notes(journal@) == notes(old(journal)@) + operand_complaints(
                views(args@).take(i as int),
            ),
        decreases args.len() - i,
    {
        proof {
            assert(views(args@).take(i + 1).drop_last() == views(args@).take(i as int));
        }
        match &args[i] {
            LispType::Atom(Atomic::Number(n)) => {
                whole = whole.wrapping_mul(*n);
            },
            LispType::Atom(Atomic::Float(x)) => {
                fraction = unit.product(fraction, *x);
                mixed = true;
            },
            _ => {
                report(journal, Notice::Operand);
            },
        }
        i = i + 1;
    }
    proof {
        assert(views(args@).take(args.len() as int) == views(args@));
    }
    if mixed {
        LispType::Atom(Atomic::Float(unit.product(fraction, unit.from_integer(whole))))
    } else {
        LispType::Atom(Atomic::Number(whole))
    }
}

/// What is reported of the operands of a builtin that takes one number and may
/// take a second: a first operand that is missing or not a number, or else a
/// second one that is not a number.
pub open spec fn pair_complaints(args: Seq<Value>) -> Seq<Note> {
    if args.len() == 0 || !args[0].numeric() {
        seq![Note::Operand]
    } else if args.len() > 1 && !args[1].numeric() {
        seq![Note::Operand]
    } else {
        Seq::empty()
    }
}

/// An operand taken as an integer: -1 stands in for what is not one.
pub open spec fn int_operand(v: Value) -> i64 {
    match v {
        Value::Number(n) => n,
        _ => -1i64,
    }
}

/// What `-` returns. One number is negated, and of two numbers the second is
/// subtracted from the first: on integers with wrap-around, and by the unit
/// where one of the two is a binary64 number. A second operand that is not a
/// number counts as -1. Without a number as the first operand the result is
/// `nil`.
pub open spec fn minus_result<U: FloatUnit>(unit: &U, args: Seq<Value>) -> Value {
    if args.len() == 0 {
        Value::Nil
    } else {
        match args[0] {
            Value::Number(n) => if args.len() == 1 {
                Value::Number(0i64.wrapping_sub(n))
            } else if args[1] is Float {
                Value::Float(unit.difference_of(unit.integer_of(n), args[1]->Float_0))
            } else {
                Value::Number(n.wrapping_sub(int_operand(args[1])))
            },
            Value::Float(x) => if args.len() == 1 {
                Value::Float(unit.negated_of(x))
            } else {
                Value::Float(unit.difference_of(x, float_of(unit, args[1])))
            },
            _ => Value::Nil,
        }
    }
}

/// An operand as a binary64 number: a binary64 number as it is, an integer as
/// the unit converts it, and -1.0 for what is not a number.
fn float_operand<U: FloatUnit>(unit: &U, v: &LispType) -> (r: u64)
    ensures
        r == float_of(unit, v@),
{
    match v {
        LispType::Atom(Atomic::Number(n)) => unit.from_integer(*n),
        LispType::Atom(Atomic::Float(x)) => *x,
        _ => MINUS_ONE,
    }
}

/// Whether a value is a number.
pub fn is_numeric(v: &LispType) -> (b: bool)
    ensures
        b == v@.numeric(),
{
    match v {
        LispType::Atom(Atomic::Number(_)) => true,
        LispType::Atom(Atomic::Float(_)) => true,
        _ => false,
    }
}

/// `-`: the negation of one number, or the difference of two.
pub fn minus<U: FloatUnit>(unit: &U, args: Vec<LispType>, journal: &mut Vec<Notice>) -> (r:
    LispType)
    ensures
        r@ == minus_result(unit, views(args@)),
        notes(final(journal)@) == notes(old(journal)@) + pair_complaints(views(args@)),
{
    if args.len() == 0 {
        report(journal, Notice::Operand);
        return LispType::nil();
    }
    match &args[0] {
        LispType::Atom(Atomic::Number(n)) => {
            if args.len() == 1 {
                return LispType::Atom(Atomic::Number(0i64.wrapping_sub(*n)));
            }
            match &args[1] {
                LispType::Atom(Atomic::Float(x)) => {
                    assert(notes(journal@) =~= notes(old(journal)@) + pair_complaints(
                        views(args@),
                    ));
                    LispType::Atom(Atomic::Float(unit.difference(unit.from_integer(*n), *x)))
                },
                LispType::Atom(Atomic::Number(m)) => {
                    assert(notes(journal@) =~= notes(old(journal)@) + pair_complaints(
                        views(args@),
                    ));
                    LispType::Atom(Atomic::Number(n.wrapping_sub(*m)))
                },
                _ => {
                    report(journal, Notice::Operand);
                    LispType::Atom(Atomic::Number(n.wrapping_sub(-1)))
                },
            }
        },
        LispType::Atom(Atomic::Float(x)) => {
            if args.len() == 1 {
                return LispType::Atom(Atomic::Float(unit.negated(*x)));
            }
            if !is_numeric(&args[1]) {
                report(journal, Notice::Operand);
            }
            LispType::Atom(Atomic::Float(unit.difference(*x, float_operand(unit, &args[1]))))
        },
        _ => {
            report(journal, Notice::Operand);
            LispType::nil()
        },
    }
}

/// What is reported of the operands of a builtin that takes two numbers: a first
/// operand that is missing or not a number, or else a second one.
pub open spec fn binary_complaints(args: Seq<Value>) -> Seq<Note> {
    if args.len() < 2 || !args[0].numeric() || !args[1].numeric() {
        seq![Note::Operand]
    } else {
        Seq::empty()
    }
}

/// Whether a builtin that takes two numbers computes anything: it has a number
/// as its first operand, and a second operand.
pub open spec fn binary_ready(args: Seq<Value>) -> bool {
    args.len() >= 2 && args[0].numeric()
}

/// What `/` returns: the quotient of the first two operands, both taken as
/// binary64 numbers, where there is something to divide; else `nil`.
pub open spec fn div_result<U: FloatUnit>(unit: &U, args: Seq<Value>) -> Value {
    if binary_ready(args) {
        Value::Float(unit.quotient_of(float_of(unit, args[0]), float_of(unit, args[1])))
    } else {
        Value::Nil
    }
}

/// `/`: the quotient of two numbers, always a binary64 number.
pub fn div<U: FloatUnit>(unit: &U, args: Vec<LispType>, journal: &mut Vec<Notice>) -> (r: LispType)
    ensures
        r@ == div_result(unit, views(args@)),
        notes(final(journal)@) == notes(old(journal)@) + binary_complaints(views(args@)),
{
    if args.len() < 2 || !is_numeric(&args[0]) {
        report(journal, Notice::Operand);
        return LispType::nil();
    }
    if !is_numeric(&args[1]) {
        report(journal, Notice::Operand);
    }
    let a = float_operand(unit, &args[0]);
    let b = float_operand(unit, &args[1]);
    LispType::Atom(Atomic::Float(unit.quotient(a, b)))
}

/// The absolute value of an integer; that of the least integer is itself.
pub open spec fn int_abs(n: i64) -> i64 {
    if n < 0 {
        0i64.wrapping_sub(n)
    } else {
        n
    }
}

/// What `abs` returns: the absolute value of an integer, that of a binary64
/// number as the unit gives it, and `nil` for anything else.
pub open spec fn abs_result<U: FloatUnit>(unit: &U, args: Seq<Value>) -> Value {
    if args.len() == 0 {
        Value::Nil
    } else {
        match args[0] {
            Value::Number(n) => Value::Number(int_abs(n)),
            Value::Float(x) => Value::Float(unit.magnitude_of(x)),
            _ => Value::Nil,
        }
    }
}

/// What `abs` reports: an operand that is missing or not a number.
pub open spec fn abs_complaints(args: Seq<Value>) -> Seq<Note> {
    if args.len() == 0 || !args[0].numeric() {
        seq![Note::Operand]
    } else {
        Seq::empty()
    }
}

/// `abs`: the absolute value of a number, of the kind of the number.
pub fn abs<U: FloatUnit>(unit: &U, args: Vec<LispType>, journal: &mut Vec<Notice>) -> (r: LispType)
    ensures
        r@ == abs_result(unit, views(args@)),
        notes(final(journal)@) == notes(old(journal)@) + abs_complaints(views(args@)),
{
    if args.len() == 0 {
        report(journal, Notice::Operand);
        return LispType::nil();
    }
    match &args[0] {
        LispType::Atom(Atomic::Number(n)) => {
            if *n < 0 {
                LispType::Atom(Atomic::Number(0i64.wrapping_sub(*n)))
            } else {
                LispType::Atom(Atomic::Number(*n))
            }
        },
        LispType::Atom(Atomic::Float(x)) => {
            LispType::Atom(Atomic::Float(unit.magnitude(*x)))
        },
        _ => {
            report(journal, Notice::Operand);
            LispType::nil()
        },
    }
}

/// The larger of two integers if `upper`, else the smaller.
pub open spec fn pick(upper: bool, n: i64, m: i64) -> i64 {
    if upper == (n >= m) {
        n
    } else {
        m
    }
}

/// The larger of two binary64 numbers if `upper`, else the smaller, as the
/// unit gives it.
pub open spec fn float_pick<U: FloatUnit>(unit: &U, upper: bool, a: u64, b: u64) -> u64 {
    if upper {
        unit.larger_of(a, b)
    } else {
        unit.smaller_of(a, b)
    }
}

/// What `max` (if `upper`) or `min` returns for two values: of two integers the
/// larger or the smaller one; of two numbers one of which is a binary64 number
/// what the unit picks, the binary64 number handed to it first; and `nil` if
/// one of the two is not a number.
pub open spec fn pair_result<U: FloatUnit>(unit: &U, upper: bool, a: Value, b: Value) -> Value {
    match (a, b) {
        (Value::Number(n), Value::Number(m)) => Value::Number(pick(upper, n, m)),
        (Value::Float(x), Value::Number(m)) => Value::Float(
            float_pick(unit, upper, x, unit.integer_of(m)),
        ),
        (Value::Float(x), Value::Float(y)) => Value::Float(float_pick(unit, upper, x, y)),
        (Value::Number(n), Value::Float(y)) => Value::Float(
            float_pick(unit, upper, y, unit.integer_of(n)),
        ),
        _ => Value::Nil,
    }
}

/// What is reported of two values: that one of them is not a number.
pub open spec fn both_complaints(a: Value, b: Value) -> Seq<Note> {
    if a.numeric() && b.numeric() {
        Seq::empty()
    } else {
        seq![Note::Operand]
    }
}

fn extreme_pair<U: FloatUnit>(
    unit: &U,
    upper: bool,
    a: &LispType,
    b: &LispType,
    journal: &mut Vec<Notice>,
) -> (r: LispType)
    ensures
        r@ == pair_result(unit, upper, a@, b@),
        notes(final(journal)@) == notes(old(journal)@) + both_complaints(a@, b@),
{
    if !is_numeric(a) || !is_numeric(b) {
        report(journal, Notice::Operand);
        return LispType::nil();
    }
    match (a, b) {
        (LispType::Atom(Atomic::Number(n)), LispType::Atom(Atomic::Number(m))) => {
            if upper == (*n >= *m) {
                LispType::Atom(Atomic::Number(*n))
            } else {
                LispType::Atom(Atomic::Number(*m))
            }
        },
        (LispType::Atom(Atomic::Float(x)), _) => {
            let y = float_operand(unit, b);
            LispType::Atom(Atomic::Float(if upper { unit.larger(*x, y) } else { unit.smaller(*x, y) }))
        },
        (_, LispType::Atom(Atomic::Float(y))) => {
            let x = float_operand(unit, a);
            LispType::Atom(Atomic::Float(if upper { unit.larger(*y, x) } else { unit.smaller(*y, x) }))
        },
        _ => LispType::nil(),
    }
}

/// The larger of two numbers.
pub fn _max<U: FloatUnit>(unit: &U, arg0: &LispType, arg1: &LispType, journal: &mut Vec<Notice>) -> (r:
    LispType)
    ensures
        r@ == pair_result(unit, true, arg0@, arg1@),
        notes(final(journal)@) == notes(old(journal)@) + both_complaints(arg0@, arg1@),
{
    extreme_pair(unit, true, arg0, arg1, journal)
}

/// The smaller of two numbers.
pub fn _min<U: FloatUnit>(unit: &U, arg0: &LispType, arg1: &LispType, journal: &mut Vec<Notice>) -> (r:
    LispType)
    ensures
        r@ == pair_result(unit, false, arg0@, arg1@),
        notes(final(journal)@) == notes(old(journal)@) + both_complaints(arg0@, arg1@),
{
    extreme_pair(unit, false, arg0, arg1, journal)
}

/// Whether every value is a number.
pub open spec fn all_numeric(args: Seq<Value>) -> bool
    decreases args.len(),
{
    if args.len() == 0 {
        true
    } else {
        all_numeric(args.drop_last()) && args.last().numeric()
    }
}

/// The largest of the integers if `upper`, else the smallest.
pub open spec fn int_extreme(upper: bool, args: Seq<Value>) -> i64
    decreases args.len(),
{
    if args.len() == 0 {
        0
    } else if args.len() == 1 {
        int_operand(args[0])
    } else {
        pick(upper, int_extreme(upper, args.drop_last()), int_operand(args.last()))
    }
}

/// What `max` (if `upper`) or `min` returns: the first operand, against which
/// each of the others is held in turn, the one picked going on.
pub open spec fn extreme_result<U: FloatUnit>(unit: &U, upper: bool, args: Seq<Value>) -> Value
    decreases args.len(),
{
    if args.len() == 0 {
        Value::Nil
    } else if args.len() == 1 {
        args[0]
    } else {
        pair_result(unit, upper, extreme_result(unit, upper, args.drop_last()), args.last())
    }
}

/// Of what kind the result of `max` and `min` is: a number if and only if every
/// operand is one; then the largest or smallest of the integers if no operand
/// is a binary64 number, and else a binary64 number. For two operands or more
/// it is `nil` if one of them is not a number.
pub proof fn lemma_extreme_kind<U: FloatUnit>(unit: &U, upper: bool, args: Seq<Value>)
    requires
        args.len() >= 1,
    ensures
        extreme_result(unit, upper, args).numeric() <==> all_numeric(args),
        all_numeric(args) ==> (extreme_result(unit, upper, args) is Float <==> has_float(args)),
        all_numeric(args) && !has_float(args) ==> extreme_result(unit, upper, args)
            == Value::Number(int_extreme(upper, args)),
        !all_numeric(args) && args.len() >= 2 ==> extreme_result(unit, upper, args) == Value::Nil,
    decreases args.len(),
{
    if args.len() == 1 {
        assert(args.drop_last() =~= Seq::<Value>::empty());
        assert(all_numeric(args.drop_last()));
        assert(!has_float(args.drop_last()));
    } else {
        lemma_extreme_kind(unit, upper, args.drop_last());
    }
}

/// What `max` and `min` report: one report for each operand after the first
/// up to which not every operand is a number.
pub open spec fn extreme_complaints(args: Seq<Value>) -> Seq<Note>
    decreases args.len(),
{
    if args.len() <= 1 {
        Seq::empty()
    } else if all_numeric(args) {
        extreme_complaints(args.drop_last())
    } else {
        extreme_complaints(args.drop_last()).push(Note::Operand)
    }
}

fn extreme<U: FloatUnit>(unit: &U, upper: bool, args: Vec<LispType>, journal: &mut Vec<Notice>) -> (r:
    LispType)
    requires
        args.len() > 1,
    ensures
        r@ == extreme_result(unit, upper, views(args@)),
        notes(final(journal)@) == notes(old(journal)@) + extreme_complaints(views(args@)),
{
    let mut res = args[0].copy();
    let mut i: usize = 1;
    while i < args.len()
        invariant
            1 <= i <= args.len(),
            res@ == extreme_result(unit, upper, views(args@).take(i as int)),
            notes(journal@) == notes(old(journal)@) + extreme_complaints(
                views(args@).take(i as int),
            ),
        decreases args.len() - i,
    {
        proof {
            assert(views(args@).take(i + 1).drop_last() == views(args@).take(i as int));
            lemma_extreme_kind(unit, upper, views(args@).take(i as int));
        }
        res = extreme_pair(unit, upper, &res, &args[i], journal);
        i = i + 1;
    }
    proof {
        assert(views(args@).take(args.len() as int) == views(args@));
    }
    res
}

/// `max`: the largest of two numbers or more.
pub fn max<U: FloatUnit>(unit: &U, args: Vec<LispType>, journal: &mut Vec<Notice>) -> (r: LispType)
    requires
        args.len() > 1,
    ensures
        r@ == extreme_result(unit, true, views(args@)),
        notes(final(journal)@) == notes(old(journal)@) + extreme_complaints(views(args@)),
{
    extreme(unit, true, args, journal)
}

/// `min`: the smallest of two numbers or more.
pub fn min<U: FloatUnit>(unit: &U, args: Vec<LispType>, journal: &mut Vec<Notice>) -> (r: LispType)
    requires
        args.len() > 1,
    ensures
        r@ == extreme_result(unit, false, views(args@)),
        notes(final(journal)@) == notes(old(journal)@) + extreme_complaints(views(args@)),
{
    extreme(unit, false, args, journal)
}

} // verus!
