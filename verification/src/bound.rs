//! The bound on the depth of calls does not matter where it suffices: a form
//! that has a value within one bound has that value within every larger one.

use vstd::prelude::*;
use crate::semantics::{
    applied, args_evaluated, binds, branches, calls_builtin, calls_proc, evaluates, invoked,
    reached, special, State,
};
use crate::unit::FloatUnit;
use crate::value::{Builtin, Value};

verus! {

/// An outcome of a form within a bound, with a value, is an outcome of the form
/// within every larger bound.
pub proof fn law_a_larger_bound_gives_the_same<U: FloatUnit>(
    unit: &U,
    expr: Value,
    s0: State,
    fuel: nat,
    more: nat,
    out: Option<Value>,
    s1: State,
)
    requires
        evaluates(unit, expr, s0, fuel, out, s1),
        out is Some,
        fuel <= more,
    ensures
        evaluates(unit, expr, s0, more, out, s1),
    decreases 2 * fuel + 1, expr, 0nat, 0nat,
{
    match expr {
        Value::List(items) => {
            if items.len() > 0 {
                let (head, sh) = choose|head: Option<Value>, sh: State| #[trigger]
                    reached(head, sh) && evaluates(unit, items[0], s0, fuel, head, sh) && applied(
                        unit,
                        items,
                        head,
                        sh,
                        fuel,
                        out,
                        s1,
                    );
                law_a_larger_bound_gives_the_same(unit, items[0], s0, fuel, more, head, sh);
                lemma_applied(unit, items, head, sh, fuel, more, out, s1);
                assert(reached(head, sh));
            }
        },
        _ => {},
    }
}

proof fn lemma_applied<U: FloatUnit>(
    unit: &U,
    items: Seq<Value>,
    head: Option<Value>,
    s: State,
    fuel: nat,
    more: nat,
    out: Option<Value>,
    s1: State,
)
    requires
        applied(unit, items, head, s, fuel, out, s1),
        out is Some,
        fuel <= more,
    ensures
        applied(unit, items, head, s, more, out, s1),
        head is Some,
    decreases 2 * fuel + 1, items, 3nat, 0nat,
{
    match head {
        None => {},
        Some(Value::Symbol(keyword)) => {
            lemma_special(unit, keyword, items, s, fuel, more, out, s1);
        },
        Some(Value::Fun(f)) => {
            lemma_calls_builtin(unit, f, items, s, fuel, more, out, s1);
        },
        Some(Value::Proc(params, body, scope)) => {
            lemma_calls_proc(unit, params, *body, scope, items, s, fuel, more, out, s1);
        },
        Some(_) => {},
    }
}

proof fn lemma_special<U: FloatUnit>(
    unit: &U,
    keyword: Seq<char>,
    items: Seq<Value>,
    s: State,
    fuel: nat,
    more: nat,
    out: Option<Value>,
    s1: State,
)
    requires
        special(unit, keyword, items, s, fuel, out, s1),
        out is Some,
        fuel <= more,
    ensures
        special(unit, keyword, items, s, more, out, s1),
    decreases 2 * fuel + 1, items, 2nat, 0nat,
{
    if keyword == "if"@ {
        lemma_branches(unit, items, s, fuel, more, out, s1);
    } else if keyword == "define"@ {
        lemma_binds(unit, true, items, s, fuel, more, out, s1);
    } else if keyword != "write"@ && keyword != "quote"@ && keyword == "set!"@ {
        lemma_binds(unit, false, items, s, fuel, more, out, s1);
    }
}

proof fn lemma_branches<U: FloatUnit>(
    unit: &U,
    items: Seq<Value>,
    s: State,
    fuel: nat,
    more: nat,
    out: Option<Value>,
    s1: State,
)
    requires
        branches(unit, items, s, fuel, out, s1),
        out is Some,
        fuel <= more,
    ensures
        branches(unit, items, s, more, out, s1),
    decreases 2 * fuel + 1, items, 1nat, 0nat,
{
    if items.len() >= 4 {
        let (test, st) = choose|test: Option<Value>, st: State| #[trigger]
            reached(test, st) && evaluates(unit, items[1], s, fuel, test, st) && match test {
                None => out is None && s1 == st,
                Some(v) => if v.truthy() {
                    evaluates(unit, items[2], st, fuel, out, s1)
                } else {
                    evaluates(unit, items[3], st, fuel, out, s1)
                },
            };
        law_a_larger_bound_gives_the_same(unit, items[1], s, fuel, more, test, st);
        if test->0.truthy() {
            law_a_larger_bound_gives_the_same(unit, items[2], st, fuel, more, out, s1);
        } else {
            law_a_larger_bound_gives_the_same(unit, items[3], st, fuel, more, out, s1);
        }
        assert(reached(test, st));
    }
}

proof fn lemma_binds<U: FloatUnit>(
    unit: &U,
    define: bool,
    items: Seq<Value>,
    s: State,
    fuel: nat,
    more: nat,
    out: Option<Value>,
    s1: State,
)
    requires
        binds(unit, define, items, s, fuel, out, s1),
        out is Some,
        fuel <= more,
    ensures
        binds(unit, define, items, s, more, out, s1),
    decreases 2 * fuel + 1, items, 1nat, 0nat,
{
    if items.len() >= 3 {
        match items[1] {
            Value::Symbol(name) => {
                let (value, sv) = choose|value: Option<Value>, sv: State| #[trigger]
                    reached(value, sv) && evaluates(unit, items[2], s, fuel, value, sv) && match value {
                        None => out is None && s1 == sv,
                        Some(x) => out == Some(Value::Nil) && s1 == (if define {
                            sv.defined(name, x)
                        } else {
                            sv.assigned(name, x)
                        }),
                    };
                law_a_larger_bound_gives_the_same(unit, items[2], s, fuel, more, value, sv);
                assert(reached(value, sv));
            },
            _ => {},
        }
    }
}

proof fn lemma_args<U: FloatUnit>(
    unit: &U,
    items: Seq<Value>,
    upto: nat,
    s0: State,
    fuel: nat,
    more: nat,
    out: Option<Seq<Value>>,
    s1: State,
)
    requires
        args_evaluated(unit, items, upto, s0, fuel, out, s1),
        out is Some,
        fuel <= more,
    ensures
        args_evaluated(unit, items, upto, s0, more, out, s1),
    decreases 2 * fuel + 1, items, 1nat, upto,
{
    if !(upto <= 1 || upto > items.len()) {
        let (before, sb) = choose|before: Option<Seq<Value>>, sb: State| #[trigger]
            reached(before, sb) && args_evaluated(
                unit,
                items,
                (upto - 1) as nat,
                s0,
                fuel,
                before,
                sb,
            ) && match before {
                None => out is None && s1 == sb,
                Some(values) => match out {
                    None => evaluates(unit, items[upto - 1], sb, fuel, None, s1),
                    Some(all) => all.len() > 0 && all.drop_last() == values && evaluates(
                        unit,
                        items[upto - 1],
                        sb,
                        fuel,
                        Some(all.last()),
                        s1,
                    ),
                },
            };
        lemma_args(unit, items, (upto - 1) as nat, s0, fuel, more, before, sb);
        law_a_larger_bound_gives_the_same(
            unit,
            items[upto - 1],
            sb,
            fuel,
            more,
            Some(out->0.last()),
            s1,
        );
        assert(reached(before, sb));
    }
}

proof fn lemma_calls_builtin<U: FloatUnit>(
    unit: &U,
    f: Builtin,
    items: Seq<Value>,
    s: State,
    fuel: nat,
    more: nat,
    out: Option<Value>,
    s1: State,
)
    requires
        calls_builtin(unit, f, items, s, fuel, out, s1),
        out is Some,
        fuel <= more,
    ensures
        calls_builtin(unit, f, items, s, more, out, s1),
    decreases 2 * fuel + 1, items, 2nat, 0nat,
{
    let (args, sa) = choose|args: Option<Seq<Value>>, sa: State| #[trigger]
        reached(args, sa) && args_evaluated(unit, items, items.len(), s, fuel, args, sa) && match args {
            None => out is None && s1 == sa,
            Some(a) => out is Some && crate::builtins::admits(unit, f, a, out->0) && s1 == sa.noted_all(
                crate::builtins::complaints(f, a),
            ),
        };
    lemma_args(unit, items, items.len(), s, fuel, more, args, sa);
    assert(reached(args, sa));
}

proof fn lemma_calls_proc<U: FloatUnit>(
    unit: &U,
    params: Seq<Seq<char>>,
    body: Value,
    scope: nat,
    items: Seq<Value>,
    s: State,
    fuel: nat,
    more: nat,
    out: Option<Value>,
    s1: State,
)
    requires
        calls_proc(unit, params, body, scope, items, s, fuel, out, s1),
        out is Some,
        fuel <= more,
    ensures
        calls_proc(unit, params, body, scope, items, s, more, out, s1),
    decreases 2 * fuel + 1, items, 2nat, 0nat,
{
    let (args, sa) = choose|args: Option<Seq<Value>>, sa: State| #[trigger]
        reached(args, sa) && args_evaluated(unit, items, items.len(), s, fuel, args, sa) && match args {
            None => out is None && s1 == sa,
            Some(a) => invoked(unit, params, body, scope, a, sa, fuel, out, s1),
        };
    lemma_args(unit, items, items.len(), s, fuel, more, args, sa);
    law_a_larger_bound_runs_the_same(unit, params, body, scope, args->0, sa, fuel, more, out, s1);
    assert(reached(args, sa));
}

/// An outcome of running a procedure within a bound, with a value, is an
/// outcome of running it within every larger bound.
pub proof fn law_a_larger_bound_runs_the_same<U: FloatUnit>(
    unit: &U,
    params: Seq<Seq<char>>,
    body: Value,
    scope: nat,
    args: Seq<Value>,
    s: State,
    fuel: nat,
    more: nat,
    out: Option<Value>,
    s1: State,
)
    requires
        invoked(unit, params, body, scope, args, s, fuel, out, s1),
        out is Some,
        fuel <= more,
    ensures
        invoked(unit, params, body, scope, args, s, more, out, s1),
    decreases 2 * fuel, body, 0nat, 0nat,
{
    if params.len() == args.len() {
        let inside = (State { env: s.env.enter(scope), ..s }).bound(params, args, params.len());
        let sb = choose|sb: State| #[trigger]
            reached(out, sb) && evaluates(unit, body, inside, (fuel - 1) as nat, out, sb) && s1
                == (State {
                env: sb.env.leave(s.env.scopes.len(), s.env.current),
                ..sb
            });
        law_a_larger_bound_gives_the_same(
            unit,
            body,
            inside,
            (fuel - 1) as nat,
            (more - 1) as nat,
            out,
            sb,
        );
        assert(reached(out, sb));
    }
}

} // verus!
