//! Calling a builtin by its name, and the two builtins that call one: `apply`
//! and `map`.

use vstd::prelude::*;
use crate::arith::{
    abs_complaints, abs_result, add_result, binary_complaints, div_result, extreme_complaints,
    extreme_result, minus_result, mul_result, operand_complaints, pair_complaints,
};
use crate::compare::{compare_result, Comparison};
use crate::lists::{
    append_complaints, begin_result, car_result, cdr_result, cons_result, joined,
};
use crate::notice::{notes, report, Note, Notice};
use crate::unit::FloatUnit;
use crate::value::{
    lemma_weight_concat, lemma_weight_item, total_weight, views, Atomic, Builtin, LispType, Value,
};

verus! {

broadcast use {crate::value::lemma_list_view, crate::value::lemma_views_push};

/// Whether `apply` has something to call: a builtin first, a list last.
pub open spec fn apply_ready(args: Seq<Value>) -> bool {
    args.len() >= 2 && args[0] is Fun && args.last() is List
}

/// The operands that `apply` hands on: those between the builtin and the list,
/// then the items of the list.
pub open spec fn spread(args: Seq<Value>) -> Seq<Value> {
    args.subrange(1, args.len() - 1) + args.last()->List_0
}

/// What `map` finds wrong with its operands from the `i`-th on: the first that
/// is not a list, or is a list of another length than the first list.
pub open spec fn map_fault(args: Seq<Value>, i: nat) -> Option<Note>
    decreases args.len() - i,
{
    if i >= args.len() {
        None
    } else if !(args[i as int] is List) {
        Some(Note::MapList)
    } else if args[i as int]->List_0.len() != args[1]->List_0.len() {
        Some(Note::MapSize)
    } else {
        map_fault(args, i + 1)
    }
}

/// Whether `map` has something to call, and lists of one length to call it on.
pub open spec fn map_ready(args: Seq<Value>) -> bool {
    args.len() >= 2 && args[0] is Fun && args[1] is List && map_fault(args, 2) is None
}

/// The `j`-th items of the lists that `map` was given.
pub open spec fn column(args: Seq<Value>, j: int) -> Seq<Value> {
    Seq::new((args.len() - 1) as nat, |i: int| args[i + 1]->List_0[j])
}

/// Every operand of `map` after the first is a list of the length of the first
/// list.
pub proof fn lemma_map_ready(args: Seq<Value>, from: nat, i: int)
    requires
        args.len() >= 2,
        args[1] is List,
        map_fault(args, from) is None,
        from <= i < args.len(),
    ensures
        args[i] is List,
        args[i]->List_0.len() == args[1]->List_0.len(),
    decreases i - from,
{
    if from < i {
        lemma_map_ready(args, from + 1, i);
    }
}

/// A column weighs less than the operands it was taken from.
pub proof fn lemma_column_weight(args: Seq<Value>, j: int)
    requires
        map_ready(args),
        0 <= j < args[1]->List_0.len(),
    ensures
        total_weight(column(args, j)) < total_weight(args),
{
    lemma_column_prefix_weight(args, j, (args.len() - 1) as nat);
    assert(column(args, j).take(args.len() - 1) =~= column(args, j));
    assert(args.take(args.len() as int) =~= args);
}

proof fn lemma_column_prefix_weight(args: Seq<Value>, j: int, k: nat)
    requires
        map_ready(args),
        0 <= j < args[1]->List_0.len(),
        k <= args.len() - 1,
    ensures
        total_weight(column(args, j).take(k as int)) < total_weight(args.take(k + 1 as int)),
    decreases k,
{
    let firsts = args.take(k + 1 as int);
    let picked = column(args, j).take(k as int);
    if k == 0 {
        assert(picked =~= Seq::<Value>::empty());
        assert(firsts.drop_last() =~= Seq::<Value>::empty());
        assert(total_weight(firsts) == total_weight(firsts.drop_last()) + firsts.last().weight());
    } else {
        lemma_column_prefix_weight(args, j, (k - 1) as nat);
        assert(picked.drop_last() =~= column(args, j).take(k - 1));
        assert(firsts.drop_last() =~= args.take(k as int));
        if k >= 2 {
            lemma_map_ready(args, 2, k as int);
        }
        let items = args[k as int]->List_0;
        lemma_weight_item(items, j);
        assert(picked.last() == items[j]);
        assert(firsts.last() == args[k as int]);
        assert(firsts.last().weight() == 1 + total_weight(items));
        assert(total_weight(firsts) == total_weight(firsts.drop_last()) + firsts.last().weight());
        assert(total_weight(picked) == total_weight(picked.drop_last()) + picked.last().weight());
    }
}

/// What `apply` hands on weighs less than what it was given.
pub proof fn lemma_spread_weight(args: Seq<Value>)
    requires
        apply_ready(args),
    ensures
        total_weight(spread(args)) < total_weight(args),
{
    let middle = args.subrange(1, args.len() - 1);
    let items = args.last()->List_0;
    let head = seq![args[0]];
    lemma_weight_concat(middle, items);
    lemma_weight_concat(head, middle);
    assert(args.drop_last() =~= head + middle);
    assert(head.drop_last() =~= Seq::<Value>::empty());
    assert(total_weight(head) == total_weight(head.drop_last()) + head.last().weight());
    assert(args.last().weight() == 1 + total_weight(items));
    assert(total_weight(args) == total_weight(args.drop_last()) + args.last().weight());
}

/// Whether `r` is what a builtin returns for given operands.
///
/// Integers and lists are computed here; what is computed on binary64 numbers
/// is what the unit returns for it.
pub open spec fn admits<U: FloatUnit>(unit: &U, f: Builtin, args: Seq<Value>, r: Value) -> bool
    decreases total_weight(args), 1nat, 0nat,
{
    match f {
        Builtin::Add => r == add_result(unit, args),
        Builtin::Minus => r == minus_result(unit, args),
        Builtin::Mul => r == mul_result(unit, args),
        Builtin::Div => r == div_result(unit, args),
        Builtin::Gt => r == compare_result(unit, Comparison::Greater, args),
        Builtin::Ge => r == compare_result(unit, Comparison::GreaterOrEqual, args),
        Builtin::Lt => r == compare_result(unit, Comparison::Less, args),
        Builtin::Le => r == compare_result(unit, Comparison::LessOrEqual, args),
        Builtin::Eq => r == compare_result(unit, Comparison::Equal, args),
        Builtin::Neq => r == compare_result(unit, Comparison::Unequal, args),
        Builtin::Begin => r == begin_result(args),
        Builtin::Max => if args.len() > 1 {
            r == extreme_result(unit, true, args)
        } else {
            r == Value::Nil
        },
        Builtin::Min => if args.len() > 1 {
            r == extreme_result(unit, false, args)
        } else {
            r == Value::Nil
        },
        Builtin::Abs => r == abs_result(unit, args),
        Builtin::Append => r == Value::List(joined(args)),
        Builtin::Cons => r == cons_result(args),
        Builtin::Car => r == car_result(args),
        Builtin::Cdr => r == cdr_result(args),
        Builtin::Apply => apply_admits(unit, args, r),
        Builtin::MapEach => map_admits(unit, args, r),
        Builtin::List => r == Value::List(args),
    }
}

/// Whether `r` is what `apply` returns: what the builtin returns for the
/// operands handed on, and `nil` where there is nothing to call.
pub open spec fn apply_admits<U: FloatUnit>(unit: &U, args: Seq<Value>, r: Value) -> bool
    decreases total_weight(args), 0nat, 0nat,
{
    if apply_ready(args) {
        proof {
            lemma_spread_weight(args);
        }
        admits(unit, args[0]->Fun_0, spread(args), r)
    } else {
        r == Value::Nil
    }
}

/// Whether `r` is what `map` returns: a list of as many items as each of the
/// lists has, the `j`-th of which is what the builtin returns for the `j`-th
/// items of the lists, in the order of the lists; and `nil` where there is
/// nothing to call or the lists differ in length.
pub open spec fn map_admits<U: FloatUnit>(unit: &U, args: Seq<Value>, r: Value) -> bool
    decreases total_weight(args), 0nat, 0nat,
{
    if map_ready(args) {
        &&& r is List
        &&& r->List_0.len() == args[1]->List_0.len()
        &&& forall|j: int|
            0 <= j < args[1]->List_0.len() ==> {
                proof {
                    lemma_column_weight(args, j);
                }
                admits(unit, args[0]->Fun_0, column(args, j), #[trigger] r->List_0[j])
            }
    } else {
        r == Value::Nil
    }
}

/// What a builtin reports of given operands.
pub open spec fn complaints(f: Builtin, args: Seq<Value>) -> Seq<Note>
    decreases total_weight(args), 2nat, 0nat,
{
    match f {
        Builtin::Add | Builtin::Mul => operand_complaints(args),
        Builtin::Minus => pair_complaints(args),
        Builtin::Div | Builtin::Gt | Builtin::Ge | Builtin::Lt | Builtin::Le | Builtin::Eq
        | Builtin::Neq => binary_complaints(args),
        Builtin::Max | Builtin::Min => if args.len() > 1 {
            extreme_complaints(args)
        } else {
            seq![Note::Operand]
        },
        Builtin::Abs => abs_complaints(args),
        Builtin::Append => append_complaints(args),
        Builtin::Apply => apply_complaints(args),
        Builtin::MapEach => map_complaints(args),
        Builtin::Begin | Builtin::Cons | Builtin::Car | Builtin::Cdr | Builtin::List => Seq::empty(),
    }
}

/// What `apply` reports: a first operand that is no builtin, or else a last
/// operand that is no list, or else what the builtin reports.
pub open spec fn apply_complaints(args: Seq<Value>) -> Seq<Note>
    decreases total_weight(args), 0nat, 0nat,
{
    if args.len() == 0 || !(args[0] is Fun) {
        seq![Note::ApplyFunction]
    } else if args.len() < 2 || !(args.last() is List) {
        seq![Note::ApplyList]
    } else {
        proof {
            lemma_spread_weight(args);
        }
        complaints(args[0]->Fun_0, spread(args))
    }
}

/// What `map` reports: a first operand that is no builtin, or else the first
/// operand after it that is no list or is a list of another length than the
/// first list, or else what the builtin reports of each column in turn.
pub open spec fn map_complaints(args: Seq<Value>) -> Seq<Note>
    decreases total_weight(args), 1nat, 0nat,
{
    if args.len() == 0 || !(args[0] is Fun) {
        seq![Note::MapFunction]
    } else if args.len() < 2 || !(args[1] is List) {
        seq![Note::MapList]
    } else {
        match map_fault(args, 2) {
            Some(note) => seq![note],
            None => column_complaints(args, args[1]->List_0.len()),
        }
    }
}

/// What the builtin reports of the first `n` columns, in turn.
pub open spec fn column_complaints(args: Seq<Value>, n: nat) -> Seq<Note>
    decreases total_weight(args), 0nat, n,
{
    if n == 0 || !map_ready(args) || n > args[1]->List_0.len() {
        Seq::empty()
    } else {
        proof {
            lemma_column_weight(args, n - 1);
        }
        column_complaints(args, (n - 1) as nat) + complaints(
            args[0]->Fun_0,
            column(args, n - 1),
        )
    }
}

/// Calls a builtin on operands that have been evaluated.
pub fn call<U: FloatUnit>(unit: &U, f: Builtin, args: Vec<LispType>, journal: &mut Vec<Notice>) -> (r:
    LispType)
    ensures
        admits(unit, f, views(args@), r@),
        notes(final(journal)@) == notes(old(journal)@) + complaints(f, views(args@)),
    decreases total_weight(views(args@)), 1nat, 0nat,
{
    match f {
        Builtin::Add => crate::arith::add(unit, args, journal),
        Builtin::Minus => crate::arith::minus(unit, args, journal),
        Builtin::Mul => crate::arith::mul(unit, args, journal),
        Builtin::Div => crate::arith::div(unit, args, journal),
        Builtin::Gt => crate::compare::gt(unit, args, journal),
        Builtin::Ge => crate::compare::ge(unit, args, journal),
        Builtin::Lt => crate::compare::lt(unit, args, journal),
        Builtin::Le => crate::compare::le(unit, args, journal),
        Builtin::Eq => crate::compare::eq(unit, args, journal),
        Builtin::Neq => crate::compare::neq(unit, args, journal),
        Builtin::Begin => crate::lists::begin(args),
        Builtin::Max => {
            if args.len() > 1 {
                crate::arith::max(unit, args, journal)
            } else {
                report(journal, Notice::Operand);
                LispType::nil()
            }
        },
        Builtin::Min => {
            if args.len() > 1 {
                crate::arith::min(unit, args, journal)
            } else {
                report(journal, Notice::Operand);
                LispType::nil()
            }
        },
        Builtin::Abs => crate::arith::abs(unit, args, journal),
        Builtin::Append => crate::lists::append(args, journal),
        Builtin::Cons => crate::lists::cons(args),
        Builtin::Car => crate::lists::car(args),
        Builtin::Cdr => crate::lists::cdr(args),
        Builtin::Apply => apply(unit, args, journal),
        Builtin::MapEach => map(unit, args, journal),
        Builtin::List => crate::lists::list_(args),
    }
}

/// `apply`: calls a builtin on the operands that follow it, the last of which
/// is a list whose items are operands too.
pub fn apply<U: FloatUnit>(unit: &U, args: Vec<LispType>, journal: &mut Vec<Notice>) -> (r: LispType)
    ensures
        apply_admits(unit, views(args@), r@),
        notes(final(journal)@) == notes(old(journal)@) + apply_complaints(views(args@)),
    decreases total_weight(views(args@)), 0nat, 0nat,
{
    if args.len() == 0 {
        report(journal, Notice::ApplyFunction);
        return LispType::nil();
    }
    let f = match &args[0] {
        LispType::Atom(Atomic::Fun(f)) => *f,
        _ => {
            report(journal, Notice::ApplyFunction);
            return LispType::nil();
        },
    };
    if args.len() < 2 {
        report(journal, Notice::ApplyList);
        return LispType::nil();
    }
    let last = args.len() - 1;
    match &args[last] {
        LispType::List(items) => {
            let mut expanded: Vec<LispType> = Vec::new();
            let mut i: usize = 1;
            while i < last
                invariant
                    1 <= i <= last,
                    last == args.len() - 1,
                    views(expanded@) == views(args@).subrange(1, i as int),
                decreases last - i,
            {
                expanded.push(args[i].copy());
                i = i + 1;
            }
            let ghost middle = views(expanded@);
            let mut j: usize = 0;
            while j < items.len()
                invariant
                    j <= items.len(),
                    views(expanded@) == middle + views(items@).take(j as int),
                decreases items.len() - j,
            {
                expanded.push(items[j].copy());
                j = j + 1;
            }
            proof {
                assert(views(expanded@) == spread(views(args@)));
                lemma_spread_weight(views(args@));
            }
            call(unit, f, expanded, journal)
        },
        _ => {
            report(journal, Notice::ApplyList);
            LispType::nil()
        },
    }
}

/// The `j`-th items of the lists that follow the first operand.
fn take_column(args: &Vec<LispType>, j: usize) -> (col: Vec<LispType>)
    requires
        map_ready(views(args@)),
        j < views(args@)[1]->List_0.len(),
    ensures
        views(col@) == column(views(args@), j as int),
{
    let mut col: Vec<LispType> = Vec::new();
    let mut i: usize = 1;
    while i < args.len()
        invariant
            1 <= i <= args.len(),
            map_ready(views(args@)),
            j < views(args@)[1]->List_0.len(),
            views(col@) == column(views(args@), j as int).take(i - 1),
        decreases args.len() - i,
    {
        proof {
            if i >= 2 {
                lemma_map_ready(views(args@), 2, i as int);
            }
        }
        match &args[i] {
            LispType::List(items) => {
                col.push(items[j].copy());
            },
            _ => {},
        }
        i = i + 1;
    }
    col
}

/// `map`: calls a builtin on the first items of the lists that follow it, on
/// their second items, and so on, and returns the results in a list.
pub fn map<U: FloatUnit>(unit: &U, args: Vec<LispType>, journal: &mut Vec<Notice>) -> (r: LispType)
    ensures
        map_admits(unit, views(args@), r@),
        notes(final(journal)@) == notes(old(journal)@) + map_complaints(views(args@)),
    decreases total_weight(views(args@)), 0nat, 0nat,
{
    if args.len() == 0 {
        report(journal, Notice::MapFunction);
        return LispType::nil();
    }
    let f = match &args[0] {
        LispType::Atom(Atomic::Fun(f)) => *f,
        _ => {
            report(journal, Notice::MapFunction);
            return LispType::nil();
        },
    };
    if args.len() < 2 {
        report(journal, Notice::MapList);
        return LispType::nil();
    }
    let n = match &args[1] {
        LispType::List(items) => items.len(),
        _ => {
            report(journal, Notice::MapList);
            return LispType::nil();
        },
    };
    let mut i: usize = 2;
    while i < args.len()
        invariant
            2 <= i <= args.len(),
            views(args@)[0] is Fun,
            views(args@)[1] is List,
            n == views(args@)[1]->List_0.len(),
            map_fault(views(args@), 2) == map_fault(views(args@), i as nat),
            journal@ == old(journal)@,
        decreases args.len() - i,
    {
        match &args[i] {
            LispType::List(items) => {
                if items.len() != n {
                    report(journal, Notice::MapSize);
                    return LispType::nil();
                }
            },
            _ => {
                report(journal, Notice::MapList);
                return LispType::nil();
            },
        }
        i = i + 1;
    }
    let mut out: Vec<LispType> = Vec::new();
    let mut j: usize = 0;
    while j < n
        invariant
            j <= n,
            map_ready(views(args@)),
            n == views(args@)[1]->List_0.len(),
            f == views(args@)[0]->Fun_0,
            out.len() == j,
            forall|k: int|
                0 <= k < j ==> admits(unit, f, column(views(args@), k), #[trigger] views(out@)[k]),
            notes(journal@) == notes(old(journal)@) + column_complaints(views(args@), j as nat),
        decreases n - j,
    {
        let col = take_column(&args, j);
        proof {
            lemma_column_weight(views(args@), j as int);
        }
        let item = call(unit, f, col, journal);
        out.push(item);
        j = j + 1;
        proof {
            assert(notes(journal@) =~= notes(old(journal)@) + column_complaints(
                views(args@),
                j as nat,
            ));
        }
    }
    LispType::List(out)
}

} // verus!
