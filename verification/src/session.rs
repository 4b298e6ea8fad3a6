//! A session: the bindings it starts with, and the evaluation of a line.

use vstd::prelude::*;
use crate::env::{lemma_position_absent, lemma_position_found, Env, EnvModel, ScopeModel};
use crate::eval::{eval, kept, state_of};
use crate::lexer::{split_cmd_to_vec, tokens};
use crate::notice::Notice;
use crate::reader::{cvt_to_nested_expression, read};
use crate::semantics::evaluates;
use crate::unit::{FloatUnit, PI};
use crate::value::{view_of, Atomic, Builtin, LispType, Value};

verus! {

/// The bindings that a session starts with: `PI`, the keywords of the special
/// forms, each bound to itself, and the builtins under their names.
#[verifier::opaque]
pub open spec fn initial() -> EnvModel {
    EnvModel::root().define("PI"@, Value::Float(PI)).define("if"@, Value::Symbol("if"@)).define(
        "define"@,
        Value::Symbol("define"@),
    ).define("quote"@, Value::Symbol("quote"@)).define("set!"@, Value::Symbol("set!"@)).define(
        "lambda"@,
        Value::Symbol("lambda"@),
    ).define("write"@, Value::Symbol("write"@)).define("+"@, Value::Fun(Builtin::Add)).define(
        "-"@,
        Value::Fun(Builtin::Minus),
    ).define("*"@, Value::Fun(Builtin::Mul)).define("/"@, Value::Fun(Builtin::Div)).define(
        ">"@,
        Value::Fun(Builtin::Gt),
    ).define(">="@, Value::Fun(Builtin::Ge)).define("<"@, Value::Fun(Builtin::Lt)).define(
        "<="@,
        Value::Fun(Builtin::Le),
    ).define("="@, Value::Fun(Builtin::Eq)).define("/="@, Value::Fun(Builtin::Neq)).define(
        "begin"@,
        Value::Fun(Builtin::Begin),
    ).define("max"@, Value::Fun(Builtin::Max)).define("min"@, Value::Fun(Builtin::Min)).define(
        "abs"@,
        Value::Fun(Builtin::Abs),
    ).define("append"@, Value::Fun(Builtin::Append)).define(
        "cons"@,
        Value::Fun(Builtin::Cons),
    ).define("car"@, Value::Fun(Builtin::Car)).define("cdr"@, Value::Fun(Builtin::Cdr)).define(
        "apply"@,
        Value::Fun(Builtin::Apply),
    ).define("map"@, Value::Fun(Builtin::MapEach)).define("list"@, Value::Fun(Builtin::List))
}

fn bind(env: &mut Env, name: &str, value: LispType)
    requires
        old(env).wf(),
    ensures
        final(env).wf(),
        final(env)@ == old(env)@.define(name@, value@),
{
    let name = String::from_str(name);
    env.add_symbol(&name, &value);
}

fn bind_keyword(env: &mut Env, name: &str)
    requires
        old(env).wf(),
    ensures
        final(env).wf(),
        final(env)@ == old(env)@.define(name@, Value::Symbol(name@)),
{
    bind(env, name, LispType::Atom(Atomic::Symbol(String::from_str(name))));
}

fn bind_builtin(env: &mut Env, name: &str, f: Builtin)
    requires
        old(env).wf(),
    ensures
        final(env).wf(),
        final(env)@ == old(env)@.define(name@, Value::Fun(f)),
{
    bind(env, name, LispType::Atom(Atomic::Fun(f)));
}

/// The environment that a session starts with.
pub fn init_env() -> (env: Env)
    ensures
        env.wf(),
        env@ == initial(),
{
    proof {
        reveal(initial);
    }
    let mut env = Env::new();
    bind(&mut env, "PI", LispType::Atom(Atomic::Float(PI)));
    bind_keyword(&mut env, "if");
    bind_keyword(&mut env, "define");
    bind_keyword(&mut env, "quote");
    bind_keyword(&mut env, "set!");
    bind_keyword(&mut env, "lambda");
    bind_keyword(&mut env, "write");
    bind_builtin(&mut env, "+", Builtin::Add);
    bind_builtin(&mut env, "-", Builtin::Minus);
    bind_builtin(&mut env, "*", Builtin::Mul);
    bind_builtin(&mut env, "/", Builtin::Div);
    bind_builtin(&mut env, ">", Builtin::Gt);
    bind_builtin(&mut env, ">=", Builtin::Ge);
    bind_builtin(&mut env, "<", Builtin::Lt);
    bind_builtin(&mut env, "<=", Builtin::Le);
    bind_builtin(&mut env, "=", Builtin::Eq);
    bind_builtin(&mut env, "/=", Builtin::Neq);
    bind_builtin(&mut env, "begin", Builtin::Begin);
    bind_builtin(&mut env, "max", Builtin::Max);
    bind_builtin(&mut env, "min", Builtin::Min);
    bind_builtin(&mut env, "abs", Builtin::Abs);
    bind_builtin(&mut env, "append", Builtin::Append);
    bind_builtin(&mut env, "cons", Builtin::Cons);
    bind_builtin(&mut env, "car", Builtin::Car);
    bind_builtin(&mut env, "cdr", Builtin::Cdr);
    bind_builtin(&mut env, "apply", Builtin::Apply);
    bind_builtin(&mut env, "map", Builtin::MapEach);
    bind_builtin(&mut env, "list", Builtin::List);
    env
}

/// What is read from a line of text: the last form that its tokens hold.
pub open spec fn form_of<U: FloatUnit>(unit: &U, cmd: Seq<char>) -> Value {
    read(unit, tokens(cmd), 0, 0, Seq::empty()).0
}

/// Reads a line of text and evaluates what was read.
#[allow(non_snake_case)]
pub fn Eval<U: FloatUnit>(
    cmd: &str,
    env: &mut Env,
    unit: &U,
    journal: &mut Vec<Notice>,
    fuel: usize,
) -> (out: Option<LispType>)
    requires
        old(env).wf(),
    ensures
        final(env).wf(),
        kept(old(env)@, final(env)@),
        evaluates(
            unit,
            form_of(unit, cmd@),
            state_of(old(env), old(journal)),
            fuel as nat,
            view_of(out),
            state_of(final(env), final(journal)),
        ),
{
    let v = split_cmd_to_vec(cmd);
    let mut idx: usize = 0;
    let expr = cvt_to_nested_expression(unit, v.as_slice(), &mut idx, 0);
    eval(&expr, env, unit, journal, fuel)
}

} // verus!

verus! {

/// The names that a session starts with, in the order in which they are bound.
pub open spec fn initial_names() -> Seq<Seq<char>> {
    seq![
        "PI"@,
        "if"@,
        "define"@,
        "quote"@,
        "set!"@,
        "lambda"@,
        "write"@,
        "+"@,
        "-"@,
        "*"@,
        "/"@,
        ">"@,
        ">="@,
        "<"@,
        "<="@,
        "="@,
        "/="@,
        "begin"@,
        "max"@,
        "min"@,
        "abs"@,
        "append"@,
        "cons"@,
        "car"@,
        "cdr"@,
        "apply"@,
        "map"@,
        "list"@,
    ]
}

/// What the names that a session starts with are bound to.
pub open spec fn initial_values() -> Seq<Value> {
    seq![
        Value::Float(PI),
        Value::Symbol("if"@),
        Value::Symbol("define"@),
        Value::Symbol("quote"@),
        Value::Symbol("set!"@),
        Value::Symbol("lambda"@),
        Value::Symbol("write"@),
        Value::Fun(Builtin::Add),
        Value::Fun(Builtin::Minus),
        Value::Fun(Builtin::Mul),
        Value::Fun(Builtin::Div),
        Value::Fun(Builtin::Gt),
        Value::Fun(Builtin::Ge),
        Value::Fun(Builtin::Lt),
        Value::Fun(Builtin::Le),
        Value::Fun(Builtin::Eq),
        Value::Fun(Builtin::Neq),
        Value::Fun(Builtin::Begin),
        Value::Fun(Builtin::Max),
        Value::Fun(Builtin::Min),
        Value::Fun(Builtin::Abs),
        Value::Fun(Builtin::Append),
        Value::Fun(Builtin::Cons),
        Value::Fun(Builtin::Car),
        Value::Fun(Builtin::Cdr),
        Value::Fun(Builtin::Apply),
        Value::Fun(Builtin::MapEach),
        Value::Fun(Builtin::List),
    ]
}

/// The first `n` of the names bound to the first `n` of the values, in order,
/// in one scope.
pub open spec fn bound_in_order(names: Seq<Seq<char>>, values: Seq<Value>, n: nat) -> EnvModel
    decreases n,
{
    if n == 0 {
        EnvModel::root()
    } else {
        bound_in_order(names, values, (n - 1) as nat).define(names[n - 1], values[n - 1])
    }
}

proof fn lemma_bound_in_order(names: Seq<Seq<char>>, values: Seq<Value>, n: nat)
    requires
        crate::env::distinct(names),
        n <= names.len() == values.len(),
    ensures
        bound_in_order(names, values, n) == (EnvModel {
            scopes: seq![
                ScopeModel {
                    names: names.take(n as int),
                    values: values.take(n as int),
                    parent: None,
                    captured: false,
                },
            ],
            current: 0,
        }),
    decreases n,
{
    let goal = EnvModel {
        scopes: seq![
            ScopeModel {
                names: names.take(n as int),
                values: values.take(n as int),
                parent: None,
                captured: false,
            },
        ],
        current: 0,
    };
    if n == 0 {
        assert(names.take(0) =~= Seq::<Seq<char>>::empty());
        assert(values.take(0) =~= Seq::<Value>::empty());
        assert(goal.scopes =~= EnvModel::root().scopes);
    } else {
        lemma_bound_in_order(names, values, (n - 1) as nat);
        let before = bound_in_order(names, values, (n - 1) as nat);
        lemma_position_absent(names.take(n - 1), names[n - 1]);
        assert(names.take(n - 1).push(names[n - 1]) =~= names.take(n as int));
        assert(values.take(n - 1).push(values[n - 1]) =~= values.take(n as int));
        assert(before.define(names[n - 1], values[n - 1]).scopes =~= goal.scopes);
    }
}

#[verifier::spinoff_prover]
proof fn lemma_initial_in_order()
    ensures
        initial() == bound_in_order(initial_names(), initial_values(), 28),
{
    reveal(initial);
    let names = initial_names();
    let values = initial_values();
    assert(bound_in_order(names, values, 0) == EnvModel::root());
    assert(bound_in_order(names, values, 7) == bound_in_order(names, values, 0).define(
        names[0],
        values[0],
    ).define(names[1], values[1]).define(names[2], values[2]).define(names[3], values[3]).define(
        names[4],
        values[4],
    ).define(names[5], values[5]).define(names[6], values[6])) by {
        reveal_with_fuel(bound_in_order, 8);
    }
    assert(bound_in_order(names, values, 14) == bound_in_order(names, values, 7).define(
        names[7],
        values[7],
    ).define(names[8], values[8]).define(names[9], values[9]).define(names[10], values[10]).define(
        names[11],
        values[11],
    ).define(names[12], values[12]).define(names[13], values[13])) by {
        reveal_with_fuel(bound_in_order, 8);
    }
    assert(bound_in_order(names, values, 21) == bound_in_order(names, values, 14).define(
        names[14],
        values[14],
    ).define(names[15], values[15]).define(names[16], values[16]).define(
        names[17],
        values[17],
    ).define(names[18], values[18]).define(names[19], values[19]).define(names[20], values[20])) by {
        reveal_with_fuel(bound_in_order, 8);
    }
    assert(bound_in_order(names, values, 28) == bound_in_order(names, values, 21).define(
        names[21],
        values[21],
    ).define(names[22], values[22]).define(names[23], values[23]).define(
        names[24],
        values[24],
    ).define(names[25], values[25]).define(names[26], values[26]).define(names[27], values[27])) by {
        reveal_with_fuel(bound_in_order, 8);
    }
}

/// A session starts with one scope, in which the names of [`initial_names`] are
/// bound to the values of [`initial_values`], each name to the value at its
/// place.
pub proof fn lemma_initial_bindings()
    ensures
        initial().wf(),
        initial().current == 0,
        initial().scopes.len() == 1,
        initial().scopes[0].names == initial_names(),
        initial().scopes[0].values == initial_values(),
        forall|i: int|
            0 <= i < initial_names().len() ==> initial().lookup(#[trigger] initial_names()[i])
                == Some(initial_values()[i]),
{
    lemma_initial_names_differ();
    let names = initial_names();
    let values = initial_values();
    lemma_bound_in_order(names, values, 28);
    lemma_initial_in_order();
    assert(names.take(28) =~= names);
    assert(values.take(28) =~= values);
    lemma_one_scope(initial(), names, values);
}

/// In an environment of one scope that binds no name twice, each name is bound
/// to the value at its place.
proof fn lemma_one_scope(env: EnvModel, names: Seq<Seq<char>>, values: Seq<Value>)
    requires
        crate::env::distinct(names),
        names.len() == values.len(),
        env == (EnvModel {
            scopes: seq![ScopeModel { names, values, parent: None, captured: false }],
            current: 0,
        }),
    ensures
        env.wf(),
        forall|i: int| 0 <= i < names.len() ==> env.lookup(#[trigger] names[i]) == Some(values[i]),
{
    assert forall|i: int| 0 <= i < names.len() implies env.lookup(#[trigger] names[i]) == Some(
        values[i],
    ) by {
        lemma_position_found(names, names[i], i);
    }
}

proof fn lemma_initial_names_differ()
    ensures
        crate::env::distinct(initial_names()),
{
    reveal_strlit("PI");
    reveal_strlit("if");
    reveal_strlit("define");
    reveal_strlit("quote");
    reveal_strlit("set!");
    reveal_strlit("lambda");
    reveal_strlit("write");
    reveal_strlit("+");
    reveal_strlit("-");
    reveal_strlit("*");
    reveal_strlit("/");
    reveal_strlit(">");
    reveal_strlit(">=");
    reveal_strlit("<");
    reveal_strlit("<=");
    reveal_strlit("=");
    reveal_strlit("/=");
    reveal_strlit("begin");
    reveal_strlit("max");
    reveal_strlit("min");
    reveal_strlit("abs");
    reveal_strlit("append");
    reveal_strlit("cons");
    reveal_strlit("car");
    reveal_strlit("cdr");
    reveal_strlit("apply");
    reveal_strlit("map");
    reveal_strlit("list");
    let names = initial_names();
    assert forall|i: int, j: int| 0 <= i < j < names.len() implies names[i] != names[j] by {
        let a = names[i];
        let b = names[j];
        if a.len() == b.len() {
            if a[0] == b[0] {
                if a.len() > 1 && a[1] == b[1] {
                    assert(a[2] != b[2]);
                }
            }
        }
    }
}

} // verus!
