//! What evaluation means: the relation between a form, the state before it is
//! evaluated, and the outcomes that may follow.
//!
//! What is computed on binary64 numbers is what the unit returns for it. The
//! recursion is limited by a bound on the depth of procedure calls; where that
//! bound is too small for a form, the form has no value.

use vstd::prelude::*;
use crate::builtins::{admits, complaints};
use crate::env::EnvModel;
use crate::notice::Note;
use crate::unit::FloatUnit;
use crate::value::{Builtin, Value};

verus! {

/// The scopes and what has been reported so far.
pub struct State {
    pub env: EnvModel,
    pub notes: Seq<Note>,
}

impl State {
    /// The state with one more report.
    pub open spec fn noted(self, note: Note) -> State {
        State { notes: self.notes.push(note), ..self }
    }

    /// The state with more reports.
    pub open spec fn noted_all(self, more: Seq<Note>) -> State {
        State { notes: self.notes + more, ..self }
    }

    /// `define`: binds the name in the current scope, or reports that the scope
    /// binds it already.
    pub open spec fn defined(self, name: Seq<char>, value: Value) -> State {
        if self.env.bound_here(name) {
            self.noted(Note::Redefinition(name))
        } else {
            State { env: self.env.define(name, value), ..self }
        }
    }

    /// `set!`: rebinds the name in the nearest scope that binds it, or reports
    /// that none does.
    pub open spec fn assigned(self, name: Seq<char>, value: Value) -> State {
        if self.env.resolve(self.env.current, name) is None {
            self.noted(Note::UndefinedAssignment)
        } else {
            State { env: self.env.assign(name, value), ..self }
        }
    }

    /// The first `n` parameters bound to the first `n` arguments, in order.
    pub open spec fn bound(self, params: Seq<Seq<char>>, args: Seq<Value>, n: nat) -> State
        decreases n,
    {
        if n == 0 || n > params.len() || n > args.len() {
            self
        } else {
            self.bound(params, args, (n - 1) as nat).defined(params[n - 1], args[n - 1])
        }
    }
}

/// Holds of every outcome and state. It marks the intermediate outcomes and
/// states that the relations below speak of.
pub open spec fn reached<T>(out: Option<T>, s: State) -> bool {
    true
}

/// Whether every value is a symbol.
pub open spec fn all_symbols(items: Seq<Value>) -> bool {
    forall|i: int| 0 <= i < items.len() ==> #[trigger] items[i] is Symbol
}

/// The names of a sequence of symbols.
pub open spec fn symbol_names(items: Seq<Value>) -> Seq<Seq<char>> {
    Seq::new(items.len(), |i: int| items[i]->Symbol_0)
}

/// `(quote x)`: `x` as it stands.
pub open spec fn quote_outcome(items: Seq<Value>, s: State) -> (Value, State) {
    if items.len() < 2 {
        (Value::Nil, s.noted(Note::Malformed))
    } else {
        (items[1], s)
    }
}

/// `(write x)`: puts out the name of `x` if it is a symbol.
pub open spec fn write_outcome(items: Seq<Value>, s: State) -> (Value, State) {
    if items.len() < 2 {
        (Value::Nil, s.noted(Note::Malformed))
    } else {
        match items[1] {
            Value::Symbol(name) => (Value::Nil, s.noted(Note::Written(name))),
            _ => (Value::Nil, s),
        }
    }
}

/// `(lambda (p ...) body)`: a procedure that remembers the current scope.
pub open spec fn lambda_outcome(items: Seq<Value>, s: State) -> (Value, State) {
    if items.len() < 3 {
        (Value::Nil, s.noted(Note::Malformed))
    } else {
        match items[1] {
            Value::List(params) => if all_symbols(params) {
                (
                    Value::Proc(symbol_names(params), Box::new(items[2]), s.env.current),
                    State { env: s.env.capture(), ..s },
                )
            } else {
                (Value::Nil, s.noted(Note::InvalidParameter))
            },
            _ => (Value::Nil, s.noted(Note::LambdaSyntax)),
        }
    }
}

/// Whether evaluating `expr` in state `s0`, with procedure calls nested no
/// deeper than `fuel`, may give `out` and leave state `s1`. `out` is `None`
/// where `fuel` does not suffice.
pub open spec fn evaluates<U: FloatUnit>(
    unit: &U,
    expr: Value,
    s0: State,
    fuel: nat,
    out: Option<Value>,
    s1: State,
) -> bool
    decreases 2 * fuel + 1, expr, 0nat, 0nat,
{
    match expr {
        Value::Symbol(name) => match s0.env.lookup(name) {
            Some(v) => out == Some(v) && s1 == s0,
            None => out == Some(Value::Nil) && s1 == s0.noted(Note::Undefined(name)),
        },
        Value::List(items) => if items.len() == 0 {
            out == Some(Value::Nil) && s1 == s0
        } else {
            exists|head: Option<Value>, sh: State|
                #[trigger] reached(head, sh) && evaluates(unit, items[0], s0, fuel, head, sh)
                    && applied(
                    unit,
                    items,
                    head,
                    sh,
                    fuel,
                    out,
                    s1,
                )
        },
        _ => out == Some(expr) && s1 == s0,
    }
}

/// What follows once the head of a form has been evaluated to `head`.
pub open spec fn applied<U: FloatUnit>(
    unit: &U,
    items: Seq<Value>,
    head: Option<Value>,
    s: State,
    fuel: nat,
    out: Option<Value>,
    s1: State,
) -> bool
    decreases 2 * fuel + 1, items, 3nat, 0nat,
{
    match head {
        None => out is None && s1 == s,
        Some(Value::Symbol(keyword)) => special(unit, keyword, items, s, fuel, out, s1),
        Some(Value::Fun(f)) => calls_builtin(unit, f, items, s, fuel, out, s1),
        Some(Value::Proc(params, body, scope)) => calls_proc(
            unit,
            params,
            *body,
            scope,
            items,
            s,
            fuel,
            out,
            s1,
        ),
        Some(v) => out == Some(v) && s1 == s,
    }
}

/// The special forms, by keyword.
pub open spec fn special<U: FloatUnit>(
    unit: &U,
    keyword: Seq<char>,
    items: Seq<Value>,
    s: State,
    fuel: nat,
    out: Option<Value>,
    s1: State,
) -> bool
    decreases 2 * fuel + 1, items, 2nat, 0nat,
{
    if keyword == "if"@ {
        branches(unit, items, s, fuel, out, s1)
    } else if keyword == "define"@ {
        binds(unit, true, items, s, fuel, out, s1)
    } else if keyword == "write"@ {
        out == Some(write_outcome(items, s).0) && s1 == write_outcome(items, s).1
    } else if keyword == "quote"@ {
        out == Some(quote_outcome(items, s).0) && s1 == quote_outcome(items, s).1
    } else if keyword == "set!"@ {
        binds(unit, false, items, s, fuel, out, s1)
    } else if keyword == "lambda"@ {
        out == Some(lambda_outcome(items, s).0) && s1 == lambda_outcome(items, s).1
    } else {
        out == Some(Value::Nil) && s1 == s.noted(Note::UndefinedKeyword)
    }
}

/// `(if test then else)`: `then` if `test` gives anything but `nil`, else
/// `else`.
pub open spec fn branches<U: FloatUnit>(
    unit: &U,
    items: Seq<Value>,
    s: State,
    fuel: nat,
    out: Option<Value>,
    s1: State,
) -> bool
    decreases 2 * fuel + 1, items, 1nat, 0nat,
{
    if items.len() < 4 {
        out == Some(Value::Nil) && s1 == s.noted(Note::Malformed)
    } else {
        exists|test: Option<Value>, st: State|
            #[trigger] reached(test, st) && evaluates(unit, items[1], s, fuel, test, st) && match test {
                None => out is None && s1 == st,
                Some(v) => if v.truthy() {
                    evaluates(unit, items[2], st, fuel, out, s1)
                } else {
                    evaluates(unit, items[3], st, fuel, out, s1)
                },
            }
    }
}

/// `(define name x)` if `define`, else `(set! name x)`: evaluates `x` and binds
/// or rebinds `name`. The form itself gives `nil`.
pub open spec fn binds<U: FloatUnit>(
    unit: &U,
    define: bool,
    items: Seq<Value>,
    s: State,
    fuel: nat,
    out: Option<Value>,
    s1: State,
) -> bool
    decreases 2 * fuel + 1, items, 1nat, 0nat,
{
    if items.len() < 3 {
        out == Some(Value::Nil) && s1 == s.noted(Note::Malformed)
    } else {
        match items[1] {
            Value::Symbol(name) => exists|value: Option<Value>, sv: State|
                #[trigger] reached(value, sv) && evaluates(unit, items[2], s, fuel, value, sv)
                    && match value {
                    None => out is None && s1 == sv,
                    Some(x) => out == Some(Value::Nil) && s1 == (if define {
                        sv.defined(name, x)
                    } else {
                        sv.assigned(name, x)
                    }),
                },
            _ => out == Some(Value::Nil) && s1 == s.noted(Note::InvalidName),
        }
    }
}

/// The operands `items[1]` to `items[upto - 1]` evaluated from left to right.
pub open spec fn args_evaluated<U: FloatUnit>(
    unit: &U,
    items: Seq<Value>,
    upto: nat,
    s0: State,
    fuel: nat,
    out: Option<Seq<Value>>,
    s1: State,
) -> bool
    decreases 2 * fuel + 1, items, 1nat, upto,
{
    if upto <= 1 || upto > items.len() {
        out == Some(Seq::<Value>::empty()) && s1 == s0
    } else {
        exists|before: Option<Seq<Value>>, sb: State|
            #[trigger] reached(before, sb) && args_evaluated(
                unit,
                items,
                (upto - 1) as nat,
                s0,
                fuel,
                before,
                sb,
            ) && match before {
                None => out is None && s1 == sb,
                Some(values) => match out {
                    None => evaluates(unit, items[upto - 1], sb, fuel, None, s1),
                    Some(all) => all.len() > 0 && all.drop_last() == values && evaluates(
                        unit,
                        items[upto - 1],
                        sb,
                        fuel,
                        Some(all.last()),
                        s1,
                    ),
                },
            }
    }
}

/// A builtin called on the operands of a form.
pub open spec fn calls_builtin<U: FloatUnit>(
    unit: &U,
    f: Builtin,
    items: Seq<Value>,
    s: State,
    fuel: nat,
    out: Option<Value>,
    s1: State,
) -> bool
    decreases 2 * fuel + 1, items, 2nat, 0nat,
{
    exists|args: Option<Seq<Value>>, sa: State|
        #[trigger] reached(args, sa) && args_evaluated(unit, items, items.len(), s, fuel, args, sa)
            && match args {
            None => out is None && s1 == sa,
            Some(a) => out is Some && admits(unit, f, a, out->0) && s1 == sa.noted_all(
                complaints(f, a),
            ),
        }
}

/// A procedure called on the operands of a form.
pub open spec fn calls_proc<U: FloatUnit>(
    unit: &U,
    params: Seq<Seq<char>>,
    body: Value,
    scope: nat,
    items: Seq<Value>,
    s: State,
    fuel: nat,
    out: Option<Value>,
    s1: State,
) -> bool
    decreases 2 * fuel + 1, items, 2nat, 0nat,
{
    exists|args: Option<Seq<Value>>, sa: State|
        #[trigger] reached(args, sa) && args_evaluated(unit, items, items.len(), s, fuel, args, sa)
            && match args {
            None => out is None && s1 == sa,
            Some(a) => invoked(unit, params, body, scope, a, sa, fuel, out, s1),
        }
}

/// A procedure run on arguments: the body evaluated in a new scope inside the
/// scope that the procedure was made in, with the parameters bound to the
/// arguments. With another number of arguments than parameters nothing is run.
pub open spec fn invoked<U: FloatUnit>(
    unit: &U,
    params: Seq<Seq<char>>,
    body: Value,
    scope: nat,
    args: Seq<Value>,
    s: State,
    fuel: nat,
    out: Option<Value>,
    s1: State,
) -> bool
    decreases 2 * fuel, body, 0nat, 0nat,
{
    if params.len() != args.len() {
        out == Some(Value::Nil) && s1 == s.noted(Note::ArityMismatch)
    } else if fuel == 0 || s.env.scopes.len() >= usize::MAX {
        out is None && s1 == s
    } else {
        exists|sb: State|
            #[trigger] reached(out, sb) && evaluates(
                unit,
                body,
                State { env: s.env.enter(scope), ..s }.bound(params, args, params.len()),
                (fuel - 1) as nat,
                out,
                sb,
            ) && s1 == State { env: sb.env.leave(s.env.scopes.len(), s.env.current), ..sb }
    }
}

} // verus!
