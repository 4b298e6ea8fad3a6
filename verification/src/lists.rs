//! The builtins on lists: `list`, `cons`, `car`, `cdr`, `append`, and `begin`.

use vstd::prelude::*;
use crate::notice::{notes, report, Note, Notice};
use crate::value::{views, Atomic, LispType, Value};

verus! {

broadcast use {crate::value::lemma_list_view, crate::value::lemma_views_push};

/// What `begin` returns: its last operand, `nil` if it has none.
pub open spec fn begin_result(args: Seq<Value>) -> Value {
    if args.len() == 0 {
        Value::Nil
    } else {
        args.last()
    }
}

/// `begin`: the last of the operands.
pub fn begin(args: Vec<LispType>) -> (r: LispType)
    ensures
        r@ == begin_result(views(args@)),
{
    if args.len() == 0 {
        LispType::nil()
    } else {
        args[args.len() - 1].copy()
    }
}

/// `list`: the list of the operands.
pub fn list_(args: Vec<LispType>) -> (r: LispType)
    ensures
        r@ == Value::List(views(args@)),
{
    LispType::List(args)
}

/// What `cons` returns: the second operand with the first put in front if it is
/// a list, the first alone if the second is `nil`, both if it is another atom;
/// `nil` without two operands.
pub open spec fn cons_result(args: Seq<Value>) -> Value {
    if args.len() < 2 {
        Value::Nil
    } else {
        match args[1] {
            Value::List(items) => Value::List(seq![args[0]] + items),
            Value::Nil => Value::List(seq![args[0]]),
            _ => Value::List(seq![args[0], args[1]]),
        }
    }
}

/// `cons`: a list that begins with the first operand.
pub fn cons(args: Vec<LispType>) -> (r: LispType)
    ensures
        r@ == cons_result(views(args@)),
{
    if args.len() < 2 {
        return LispType::nil();
    }
    let mut out: Vec<LispType> = Vec::new();
    out.push(args[0].copy());
    match &args[1] {
        LispType::List(items) => {
            let mut i: usize = 0;
            while i < items.len()
                invariant
                    i <= items.len(),
                    args.len() >= 2,
                    views(out@) == seq![args[0]@] + views(items@).take(i as int),
                decreases items.len() - i,
            {
                out.push(items[i].copy());
                i = i + 1;
            }
            assert(views(items@).take(items.len() as int) == views(items@));
        },
        LispType::Atom(Atomic::nil) => {
            assert(views(out@) =~= seq![args[0]@]);
        },
        other => {
            out.push(other.copy());
            assert(views(out@) =~= seq![args[0]@, args[1]@]);
        },
    }
    LispType::List(out)
}

/// What `car` returns: the first item of a list that has one, else `nil`.
pub open spec fn car_result(args: Seq<Value>) -> Value {
    if args.len() > 0 && args[0] is List && args[0]->List_0.len() > 0 {
        args[0]->List_0[0]
    } else {
        Value::Nil
    }
}

/// `car`: the first item of a list.
pub fn car(args: Vec<LispType>) -> (r: LispType)
    ensures
        r@ == car_result(views(args@)),
{
    if args.len() == 0 {
        return LispType::nil();
    }
    match &args[0] {
        LispType::List(items) => {
            if items.len() > 0 {
                items[0].copy()
            } else {
                LispType::nil()
            }
        },
        _ => LispType::nil(),
    }
}

/// What `cdr` returns: a list without its first item if it has one, else `nil`.
pub open spec fn cdr_result(args: Seq<Value>) -> Value {
    if args.len() > 0 && args[0] is List && args[0]->List_0.len() > 0 {
        Value::List(args[0]->List_0.skip(1))
    } else {
        Value::Nil
    }
}

/// `cdr`: a list without its first item.
pub fn cdr(args: Vec<LispType>) -> (r: LispType)
    ensures
        r@ == cdr_result(views(args@)),
{
    if args.len() == 0 {
        return LispType::nil();
    }
    match &args[0] {
        LispType::List(items) => {
            if items.len() == 0 {
                return LispType::nil();
            }
            let mut out: Vec<LispType> = Vec::new();
            let mut i: usize = 1;
            while i < items.len()
                invariant
                    1 <= i <= items.len(),
                    views(out@) == views(items@).subrange(1, i as int),
                decreases items.len() - i,
            {
                out.push(items[i].copy());
                i = i + 1;
            }
            LispType::List(out)
        },
        _ => LispType::nil(),
    }
}

/// The items of the lists among the values, in order.
pub open spec fn joined(args: Seq<Value>) -> Seq<Value>
    decreases args.len(),
{
    if args.len() == 0 {
        Seq::empty()
    } else {
        match args.last() {
            Value::List(items) => joined(args.drop_last()) + items,
            _ => joined(args.drop_last()),
        }
    }
}

/// One report for each value that is not a list.
pub open spec fn append_complaints(args: Seq<Value>) -> Seq<Note>
    decreases args.len(),
{
    if args.len() == 0 {
        Seq::empty()
    } else if args.last() is List {
        append_complaints(args.drop_last())
    } else {
        append_complaints(args.drop_last()).push(Note::AppendList)
    }
}

/// `append`: the items of the operands that are lists, in one list.
pub fn append(args: Vec<LispType>, journal: &mut Vec<Notice>) -> (r: LispType)
    ensures
        r@ == Value::List(joined(views(args@))),
        notes(final(journal)@) == notes(old(journal)@) + append_complaints(views(args@)),
{
    let mut out: Vec<LispType> = Vec::new();
    let mut i: usize = 0;
    while i < args.len()
        invariant
            i <= args.len(),
            views(out@) == joined(views(args@).take(i as int)),
            notes(journal@) == notes(old(journal)@) + append_complaints(
                views(args@).take(i as int),
            ),
        decreases args.len() - i,
    {
        proof {
            assert(views(args@).take(i + 1).drop_last() == views(args@).take(i as int));
        }
        match &args[i] {
            LispType::List(items) => {
                let ghost before = views(out@);
                let mut j: usize = 0;
                while j < items.len()
                    invariant
                        j <= items.len(),
                        views(out@) == before + views(items@).take(j as int),
                    decreases items.len() - j,
                {
                    out.push(items[j].copy());
                    j = j + 1;
                }
            },
            _ => {
                report(journal, Notice::AppendList);
            },
        }
        i = i + 1;
    }
    proof {
        assert(views(args@).take(args.len() as int) == views(args@));
    }
    LispType::List(out)
}

} // verus!
