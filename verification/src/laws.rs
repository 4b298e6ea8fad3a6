//! What holds of the interpreter in general.

use vstd::prelude::*;
use crate::arith::{all_numeric, extreme_result, float_of, has_float, lemma_extreme_kind};
use crate::builtins::{admits, column, map_ready};
use crate::env::{
    distinct, lemma_position_absent, lemma_position_found, lemma_position_sound, position,
    EnvModel, ScopeModel,
};
use crate::lists::joined;
use crate::notice::Note;
use crate::semantics::{applied, branches, evaluates, reached, special, State};
use crate::unit::FloatUnit;
use crate::value::{Builtin, Value};

verus! {

/// Whether a builtin is given operands for which the kind of its result goes by
/// the kinds of its operands: numbers only, as many as it looks at.
pub open spec fn kinded(f: Builtin, args: Seq<Value>) -> bool {
    all_numeric(args) && match f {
        Builtin::Add | Builtin::Mul => true,
        Builtin::Max | Builtin::Min => args.len() >= 2,
        Builtin::Minus => 1 <= args.len() <= 2,
        Builtin::Abs => args.len() == 1,
        _ => false,
    }
}

/// `all_numeric` holds if and only if every value is a number, and `has_float`
/// if and only if some value is a binary64 number.
pub proof fn lemma_kinds_of_operands(args: Seq<Value>)
    ensures
        all_numeric(args) <==> forall|i: int| 0 <= i < args.len() ==> (#[trigger] args[i]).numeric(),
        has_float(args) <==> exists|i: int| 0 <= i < args.len() && #[trigger] args[i] is Float,
    decreases args.len(),
{
    if args.len() > 0 {
        let rest = args.drop_last();
        lemma_kinds_of_operands(rest);
        assert(forall|i: int| 0 <= i < rest.len() ==> rest[i] == args[i]);
        if all_numeric(args) {
            assert forall|i: int| 0 <= i < args.len() implies (#[trigger] args[i]).numeric() by {
                if i < rest.len() {
                    assert(rest[i].numeric());
                }
            }
        }
        if forall|i: int| 0 <= i < args.len() ==> (#[trigger] args[i]).numeric() {
            assert forall|i: int| 0 <= i < rest.len() implies (#[trigger] rest[i]).numeric() by {
                assert(args[i].numeric());
            }
        }
        if has_float(rest) {
            let i = choose|i: int| 0 <= i < rest.len() && #[trigger] rest[i] is Float;
            assert(args[i] is Float);
        }
        if exists|i: int| 0 <= i < args.len() && #[trigger] args[i] is Float {
            let i = choose|i: int| 0 <= i < args.len() && #[trigger] args[i] is Float;
            if i < rest.len() {
                assert(rest[i] is Float);
            }
        }
    }
}

proof fn lemma_all_numeric(args: Seq<Value>, i: int)
    requires
        all_numeric(args),
        0 <= i < args.len(),
    ensures
        args[i].numeric(),
{
    lemma_kinds_of_operands(args);
}

/// The result of `+`, `*`, `-`, `abs`, `max` and `min` on numbers is a binary64
/// number if and only if one of the operands is one, and an integer if not.
pub proof fn law_float_if_and_only_if_an_operand_is<U: FloatUnit>(
    unit: &U,
    f: Builtin,
    args: Seq<Value>,
    r: Value,
)
    requires
        kinded(f, args),
        admits(unit, f, args, r),
    ensures
        r is Float <==> has_float(args),
        r is Number <==> !has_float(args),
{
    match f {
        Builtin::Minus => {
            lemma_all_numeric(args, 0);
            if args.len() == 1 {
                assert(args.drop_last() =~= Seq::<Value>::empty());
                assert(!has_float(args.drop_last()));
            } else {
                lemma_all_numeric(args, 1);
                assert(args.drop_last().drop_last() =~= Seq::<Value>::empty());
                assert(!has_float(args.drop_last().drop_last()));
                assert(has_float(args.drop_last()) == (args[0] is Float));
            }
        },
        Builtin::Max => {
            lemma_extreme_kind(unit, true, args);
        },
        Builtin::Min => {
            lemma_extreme_kind(unit, false, args);
        },
        Builtin::Abs => {
            lemma_all_numeric(args, 0);
            assert(args.drop_last() =~= Seq::<Value>::empty());
            assert(!has_float(args.drop_last()));
        },
        _ => {},
    }
}

/// `/` on two numbers gives a binary64 number, whatever the kinds of the two:
/// the quotient that the unit gives for the two, each taken as a binary64
/// number.
pub proof fn law_division_gives_a_float<U: FloatUnit>(unit: &U, args: Seq<Value>, r: Value)
    requires
        args.len() >= 2,
        args[0].numeric(),
        admits(unit, Builtin::Div, args, r),
    ensures
        r is Float,
        r == Value::Float(unit.quotient_of(float_of(unit, args[0]), float_of(unit, args[1]))),
{
}

/// `/=` is the contrary of `=`: of two operands of which the first is a number,
/// one of the two gives `t` and the other `nil`.
pub proof fn law_unequal_is_the_contrary_of_equal<U: FloatUnit>(
    unit: &U,
    args: Seq<Value>,
    equal: Value,
    unequal: Value,
)
    requires
        args.len() >= 2,
        args[0].numeric(),
        admits(unit, Builtin::Eq, args, equal),
        admits(unit, Builtin::Neq, args, unequal),
    ensures
        equal == Value::True || equal == Value::Nil,
        unequal == Value::True <==> equal == Value::Nil,
        unequal == Value::Nil <==> equal == Value::True,
{
}

/// `max` (if `upper`) and `min` of three integers may be taken two at a time,
/// from either end; the result is one of the three, and no smaller than any of
/// them for `max`, no larger for `min`.
pub proof fn law_extremes_of_integers_nest<U: FloatUnit>(
    unit: &U,
    upper: bool,
    a: i64,
    b: i64,
    c: i64,
)
    ensures
        extreme_result(unit, upper, seq![Value::Number(a), Value::Number(b), Value::Number(c)])
            == extreme_result(
            unit,
            upper,
            seq![
                extreme_result(unit, upper, seq![Value::Number(a), Value::Number(b)]),
                Value::Number(c),
            ],
        ),
        extreme_result(unit, upper, seq![Value::Number(a), Value::Number(b), Value::Number(c)])
            == extreme_result(
            unit,
            upper,
            seq![
                Value::Number(a),
                extreme_result(unit, upper, seq![Value::Number(b), Value::Number(c)]),
            ],
        ),
        extreme_result(unit, upper, seq![Value::Number(a), Value::Number(b), Value::Number(c)])
            matches Value::Number(m) && (m == a || m == b || m == c) && (if upper {
            m >= a && m >= b && m >= c
        } else {
            m <= a && m <= b && m <= c
        }),
{
    reveal_with_fuel(extreme_result, 4);
    let three = seq![Value::Number(a), Value::Number(b), Value::Number(c)];
    let first = seq![Value::Number(a), Value::Number(b)];
    let last = seq![Value::Number(b), Value::Number(c)];
    assert(three.drop_last() =~= first);
    assert(first.drop_last() =~= seq![Value::Number(a)]);
    assert(last.drop_last() =~= seq![Value::Number(b)]);
    let left = seq![extreme_result(unit, upper, first), Value::Number(c)];
    let right = seq![Value::Number(a), extreme_result(unit, upper, last)];
    assert(left.drop_last() =~= seq![extreme_result(unit, upper, first)]);
    assert(right.drop_last() =~= seq![Value::Number(a)]);
}

/// `map` calls the builtin once for each place in the lists: the result is a
/// list of as many items as each list has, and its `j`-th item is what the
/// builtin returns for the `j`-th items of the lists, in the order of the lists.
pub proof fn law_map_goes_place_by_place<U: FloatUnit>(unit: &U, args: Seq<Value>, r: Value, j: int)
    requires
        map_ready(args),
        admits(unit, Builtin::MapEach, args, r),
        0 <= j < args[1]->List_0.len(),
    ensures
        r is List,
        r->List_0.len() == args[1]->List_0.len(),
        admits(unit, args[0]->Fun_0, column(args, j), r->List_0[j]),
        column(args, j).len() == args.len() - 1,
        forall|i: int| 1 <= i < args.len() ==> column(args, j)[i - 1] == args[i]->List_0[j],
{
}

/// `-` on one integer gives its negation, and on two integers their difference,
/// as far as it can be held.
pub proof fn law_minus_on_integers<U: FloatUnit>(unit: &U, n: i64, m: i64, r: Value)
    ensures
        admits(unit, Builtin::Minus, seq![Value::Number(n)], r) && n > i64::MIN ==> r == Value::Number(
            (-n) as i64,
        ),
        admits(unit, Builtin::Minus, seq![Value::Number(n), Value::Number(m)], r) && i64::MIN <= n - m
            <= i64::MAX ==> r == Value::Number((n - m) as i64),
{
}

/// `cons` of a value and `nil` is the list of that value alone.
pub proof fn law_cons_onto_nil<U: FloatUnit>(unit: &U, x: Value, r: Value)
    requires
        admits(unit, Builtin::Cons, seq![x, Value::Nil], r),
    ensures
        r == Value::List(seq![x]),
{
}

/// `append` leaves out an operand that is not a list, and puts the items of one
/// that is a list after what came before, as they are.
pub proof fn law_append_takes_lists_only(args: Seq<Value>, v: Value)
    ensures
        !(v is List) ==> joined(args.push(v)) == joined(args),
        v is List ==> joined(args.push(v)) == joined(args) + v->List_0,
        joined(Seq::<Value>::empty()) == Seq::<Value>::empty(),
{
    assert(args.push(v).drop_last() =~= args);
}

/// `append` of two lists is their concatenation.
pub proof fn law_append_of_two_lists<U: FloatUnit>(unit: &U, a: Seq<Value>, b: Seq<Value>, r: Value)
    requires
        admits(unit, Builtin::Append, seq![Value::List(a), Value::List(b)], r),
    ensures
        r == Value::List(a + b),
{
    let args = seq![Value::List(a), Value::List(b)];
    reveal_with_fuel(joined, 3);
    assert(args.drop_last() =~= seq![Value::List(a)]);
    assert(args.drop_last().drop_last() =~= Seq::<Value>::empty());
    assert(joined(args.drop_last()) =~= a);
    assert(joined(args) =~= a + b);
}

/// A name that has been bound in the current scope is found there, with its
/// value.
pub proof fn lemma_defined_is_found(env: EnvModel, name: Seq<char>, value: Value)
    requires
        env.wf(),
        !env.bound_here(name),
    ensures
        env.define(name, value).wf(),
        env.define(name, value).bound_here(name),
        env.define(name, value).lookup(name) == Some(value),
{
    let after = env.define(name, value);
    let names = env.scopes[env.current as int].names;
    let grown = after.scopes[env.current as int].names;
    lemma_position_sound(names, name);
    lemma_position_found(grown, name, names.len() as int);
    assert(env.scopes[env.current as int].wf());
    assert forall|k: int| 0 <= k < after.scopes.len() implies (#[trigger] after.scopes[k]).wf() by {
        if k != env.current {
            assert(after.scopes[k] == env.scopes[k]);
        }
    }
}

impl EnvModel {
    /// The scopes before one are searched alike whatever is added after them.
    proof fn lemma_resolve_unmoved(self, more: EnvModel, from: nat, name: Seq<char>)
        requires
            from < self.scopes.len() <= more.scopes.len(),
            forall|k: int| 0 <= k < self.scopes.len() ==> self.scopes[k] == more.scopes[k],
        ensures
            self.resolve(from, name) == more.resolve(from, name),
        decreases from,
    {
        if position(self.scopes[from as int].names, name) is None {
            match self.scopes[from as int].parent {
                Some(p) => {
                    if p < from {
                        self.lemma_resolve_unmoved(more, p, name);
                    }
                },
                None => {},
            }
        }
    }
}

/// A procedure sees the bindings of the scope it was made in: in the scope in
/// which its body is evaluated, before any parameter is bound, a name means
/// what it means in that scope, wherever the call is made from.
pub proof fn law_calls_are_lexically_scoped(env: EnvModel, scope: nat, name: Seq<char>)
    requires
        env.wf(),
        scope < env.scopes.len(),
    ensures
        env.enter(scope).lookup(name) == (EnvModel { current: scope, ..env }).lookup(name),
{
    let inside = env.enter(scope);
    let outside = EnvModel { current: scope, ..env };
    assert(inside.scopes[env.scopes.len() as int].names =~= Seq::<Seq<char>>::empty());
    outside.lemma_resolve_unmoved(inside, scope, name);
    outside.lemma_resolve_sound(scope, name);
}

/// The scope in which the body of a procedure is evaluated, once `n` parameters
/// of which no two are the same have been bound.
proof fn lemma_bound_parameters(
    s: State,
    scope: nat,
    params: Seq<Seq<char>>,
    args: Seq<Value>,
    n: nat,
)
    requires
        distinct(params),
        n <= params.len() == args.len(),
    ensures
        (State { env: s.env.enter(scope), ..s }).bound(params, args, n) == (State {
            env: EnvModel {
                scopes: s.env.scopes.push(
                    ScopeModel {
                        names: params.take(n as int),
                        values: args.take(n as int),
                        parent: Some(scope),
                        captured: false,
                    },
                ),
                current: s.env.scopes.len(),
            },
            notes: s.notes,
        }),
    decreases n,
{
    let start = State { env: s.env.enter(scope), ..s };
    let frame = s.env.scopes.len() as int;
    if n == 0 {
        assert(params.take(0) =~= Seq::<Seq<char>>::empty());
        assert(args.take(0) =~= Seq::<Value>::empty());
    } else {
        lemma_bound_parameters(s, scope, params, args, (n - 1) as nat);
        let before = start.bound(params, args, (n - 1) as nat);
        lemma_position_absent(params.take(n - 1), params[n - 1]);
        assert(params.take(n - 1).push(params[n - 1]) =~= params.take(n as int));
        assert(args.take(n - 1).push(args[n - 1]) =~= args.take(n as int));
        let after = before.defined(params[n - 1], args[n - 1]);
        assert(after.env.scopes =~= s.env.scopes.push(
            ScopeModel {
                names: params.take(n as int),
                values: args.take(n as int),
                parent: Some(scope),
                captured: false,
            },
        ));
    }
}

/// Inside a procedure, a parameter means its argument, and any other name means
/// what it means in the scope that the procedure was made in, wherever the call
/// is made from. This holds where no two parameters have the same name.
pub proof fn law_parameters_hide_and_the_rest_shows_through(
    s: State,
    scope: nat,
    params: Seq<Seq<char>>,
    args: Seq<Value>,
)
    requires
        s.env.wf(),
        scope < s.env.scopes.len(),
        distinct(params),
        params.len() == args.len(),
    ensures
        forall|i: int|
            0 <= i < params.len() ==> (State { env: s.env.enter(scope), ..s }).bound(
                params,
                args,
                params.len(),
            ).env.lookup(#[trigger] params[i]) == Some(args[i]),
        forall|name: Seq<char>|
            position(params, name) is None ==> #[trigger] (State {
                env: s.env.enter(scope),
                ..s
            }).bound(params, args, params.len()).env.lookup(name) == (EnvModel {
                current: scope,
                ..s.env
            }).lookup(name),
        (State { env: s.env.enter(scope), ..s }).bound(params, args, params.len()).notes
            == s.notes,
{
    lemma_bound_parameters(s, scope, params, args, params.len());
    assert(params.take(params.len() as int) =~= params);
    assert(args.take(args.len() as int) =~= args);
    let inside = (State { env: s.env.enter(scope), ..s }).bound(params, args, params.len()).env;
    let outside = EnvModel { current: scope, ..s.env };
    assert forall|i: int| 0 <= i < params.len() implies inside.lookup(#[trigger] params[i])
        == Some(args[i]) by {
        lemma_position_found(params, params[i], i);
    }
    assert forall|name: Seq<char>| position(params, name) is None implies #[trigger] inside.lookup(
        name,
    ) == outside.lookup(name) by {
        outside.lemma_resolve_unmoved(inside, scope, name);
        outside.lemma_resolve_sound(scope, name);
    }
}

/// A second `define` of a name is rejected and changes no binding: it is
/// reported, and the name is still bound to what the first `define` gave it.
pub proof fn law_redefinition_is_rejected(s: State, name: Seq<char>, first: Value, second: Value)
    requires
        s.env.wf(),
        !s.env.bound_here(name),
    ensures
        s.defined(name, first).defined(name, second).env == s.defined(name, first).env,
        s.defined(name, first).defined(name, second).notes == s.notes.push(
            Note::Redefinition(name),
        ),
        s.defined(name, first).defined(name, second).env.lookup(name) == Some(first),
{
    lemma_defined_is_found(s.env, name, first);
}

/// `(quote x)` gives `x` as it stands, and changes nothing.
pub proof fn law_quote_gives_the_form<U: FloatUnit>(
    unit: &U,
    x: Value,
    s: State,
    fuel: nat,
    out: Option<Value>,
    s1: State,
)
    requires
        s.env.lookup("quote"@) == Some(Value::Symbol("quote"@)),
        evaluates(unit, Value::List(seq![Value::Symbol("quote"@), x]), s, fuel, out, s1),
    ensures
        out == Some(x),
        s1 == s,
{
    reveal_strlit("quote");
    reveal_strlit("if");
    reveal_strlit("define");
    reveal_strlit("write");
    let items = seq![Value::Symbol("quote"@), x];
    assert(items[0] == Value::Symbol("quote"@));
    assert(items[1] == x);
    let (head, sh) = choose|head: Option<Value>, sh: State| #[trigger]
        reached(head, sh) && evaluates(unit, items[0], s, fuel, head, sh) && applied(
            unit,
            items,
            head,
            sh,
            fuel,
            out,
            s1,
        );
    assert(head == Some(Value::Symbol("quote"@)) && sh == s);
    assert(special(unit, "quote"@, items, s, fuel, out, s1));
    assert("quote"@.len() == 5 && "quote"@[0] == 'q');
    assert("if"@.len() == 2);
    assert("define"@.len() == 6);
    assert("write"@[0] == 'w');
}

/// `(if test then else)` goes on with `then` whenever `test` gives anything but
/// `nil`, and with `else` when it gives `nil`.
pub proof fn law_if_takes_then_unless_nil<U: FloatUnit>(
    unit: &U,
    test: Value,
    then: Value,
    otherwise: Value,
    s: State,
    fuel: nat,
    out: Option<Value>,
    s1: State,
)
    requires
        s.env.lookup("if"@) == Some(Value::Symbol("if"@)),
        evaluates(
            unit,
            Value::List(seq![Value::Symbol("if"@), test, then, otherwise]),
            s,
            fuel,
            out,
            s1,
        ),
    ensures
        exists|v: Option<Value>, st: State| #[trigger]
            reached(v, st) && evaluates(unit, test, s, fuel, v, st) && match v {
                None => out is None && s1 == st,
                Some(x) => if x != Value::Nil {
                    evaluates(unit, then, st, fuel, out, s1)
                } else {
                    evaluates(unit, otherwise, st, fuel, out, s1)
                },
            },
{
    let items = seq![Value::Symbol("if"@), test, then, otherwise];
    assert(items[0] == Value::Symbol("if"@));
    assert(items[1] == test);
    assert(items[2] == then);
    assert(items[3] == otherwise);
    let (head, sh) = choose|head: Option<Value>, sh: State| #[trigger]
        reached(head, sh) && evaluates(unit, items[0], s, fuel, head, sh) && applied(
            unit,
            items,
            head,
            sh,
            fuel,
            out,
            s1,
        );
    assert(head == Some(Value::Symbol("if"@)) && sh == s);
    assert(special(unit, "if"@, items, s, fuel, out, s1));
    assert(branches(unit, items, s, fuel, out, s1));
}

} // verus!
