//! The evaluator.

use vstd::prelude::*;
use crate::builtins::call;
use crate::env::{Env, EnvModel};
use crate::notice::{notes, report, Notice};
use crate::semantics::{
    applied, args_evaluated, binds, branches, evaluates, invoked, lambda_outcome, reached, special,
    symbol_names, State,
};
use crate::text::same_text;
use crate::unit::FloatUnit;
use crate::value::{lemma_list_view, texts, view_of, views, Atomic, LispType, Proc, Value};

verus! {

broadcast use {crate::value::lemma_list_view, crate::value::lemma_views_push};

/// The state that an environment and a journal stand for.
pub open spec fn state_of(env: &Env, journal: &Vec<Notice>) -> State {
    State { env: env@, notes: notes(journal@) }
}

/// The current scope is the same, and no scope that existed is gone.
pub open spec fn kept(before: EnvModel, after: EnvModel) -> bool {
    after.current == before.current && after.scopes.len() >= before.scopes.len()
}

/// Once the bound on the depth has not sufficed for an operand, it does not for
/// the operands after it.
proof fn lemma_args_exhausted<U: FloatUnit>(
    unit: &U,
    items: Seq<Value>,
    k: nat,
    n: nat,
    s0: State,
    fuel: nat,
    s1: State,
)
    requires
        1 <= k <= n <= items.len(),
        args_evaluated(unit, items, k, s0, fuel, None, s1),
    ensures
        args_evaluated(unit, items, n, s0, fuel, None, s1),
    decreases n - k,
{
    if k < n {
        lemma_args_exhausted(unit, items, k, (n - 1) as nat, s0, fuel, s1);
        let before: Option<Seq<Value>> = None;
        assert(reached(before, s1));
    }
}

/// Evaluates a form.
///
/// Returns the value of the form, and `None` if procedure calls nest deeper
/// than `fuel`. Bindings are made and changed in `env`; what is reported is
/// appended to `journal`.
pub fn eval<U: FloatUnit>(
    expr: &LispType,
    env: &mut Env,
    unit: &U,
    journal: &mut Vec<Notice>,
    fuel: usize,
) -> (out: Option<LispType>)
    requires
        old(env).wf(),
    ensures
        final(env).wf(),
        kept(old(env)@, final(env)@),
        evaluates(
            unit,
            expr@,
            state_of(old(env), old(journal)),
            fuel as nat,
            view_of(out),
            state_of(final(env), final(journal)),
        ),
    decreases 2 * fuel + 1, expr@, 0nat, 0nat,
{
    match expr {
        LispType::Atom(Atomic::Symbol(name)) => {
            match env.lookup_symbol(name) {
                Some(v) => Some(v),
                None => {
                    report(journal, Notice::Undefined(name.clone()));
                    Some(LispType::nil())
                },
            }
        },
        LispType::List(items) => {
            if items.len() == 0 {
                return Some(LispType::nil());
            }
            proof {
                lemma_list_view(*items);
                assert(decreases_to!(expr@ => expr@->List_0));
                assert(views(items@)[0] == items[0]@);
            }
            let head = eval(&items[0], env, unit, journal, fuel);
            proof {
                assert(reached(view_of(head), state_of(env, journal)));
            }
            apply_head(items, head, env, unit, journal, fuel)
        },
        _ => Some(expr.copy()),
    }
}

/// Goes on with a form once its head has been evaluated.
fn apply_head<U: FloatUnit>(
    items: &Vec<LispType>,
    head: Option<LispType>,
    env: &mut Env,
    unit: &U,
    journal: &mut Vec<Notice>,
    fuel: usize,
) -> (out: Option<LispType>)
    requires
        old(env).wf(),
        items.len() > 0,
    ensures
        final(env).wf(),
        kept(old(env)@, final(env)@),
        applied(
            unit,
            views(items@),
            view_of(head),
            state_of(old(env), old(journal)),
            fuel as nat,
            view_of(out),
            state_of(final(env), final(journal)),
        ),
    decreases 2 * fuel + 1, views(items@), 3nat, 0nat,
{
    match head {
        None => None,
        Some(LispType::Atom(Atomic::Symbol(keyword))) => eval_special(
            &keyword,
            items,
            env,
            unit,
            journal,
            fuel,
        ),
        Some(LispType::Atom(Atomic::Fun(f))) => {
            match eval_args(items, env, unit, journal, fuel) {
                None => {
                    assert(reached(None::<Seq<Value>>, state_of(env, journal)));
                    None
                },
                Some(args) => {
                    assert(reached(Some(views(args@)), state_of(env, journal)));
                    Some(call(unit, f, args, journal))
                },
            }
        },
        Some(LispType::Atom(Atomic::Proc(p))) => {
            match eval_args(items, env, unit, journal, fuel) {
                None => {
                    assert(reached(None::<Seq<Value>>, state_of(env, journal)));
                    None
                },
                Some(args) => {
                    assert(reached(Some(views(args@)), state_of(env, journal)));
                    p.run(args, env, unit, journal, fuel)
                },
            }
        },
        Some(v) => Some(v),
    }
}

/// Evaluates a special form.
fn eval_special<U: FloatUnit>(
    keyword: &String,
    items: &Vec<LispType>,
    env: &mut Env,
    unit: &U,
    journal: &mut Vec<Notice>,
    fuel: usize,
) -> (out: Option<LispType>)
    requires
        old(env).wf(),
        items.len() > 0,
    ensures
        final(env).wf(),
        kept(old(env)@, final(env)@),
        special(
            unit,
            keyword@,
            views(items@),
            state_of(old(env), old(journal)),
            fuel as nat,
            view_of(out),
            state_of(final(env), final(journal)),
        ),
    decreases 2 * fuel + 1, views(items@), 2nat, 0nat,
{
    if same_text(keyword.as_str(), "if") {
        eval_if(items, env, unit, journal, fuel)
    } else if same_text(keyword.as_str(), "define") {
        eval_bind(true, items, env, unit, journal, fuel)
    } else if same_text(keyword.as_str(), "write") {
        if items.len() < 2 {
            report(journal, Notice::Malformed);
        } else {
            match &items[1] {
                LispType::Atom(Atomic::Symbol(name)) => {
                    report(journal, Notice::Written(name.clone()));
                },
                _ => {},
            }
        }
        Some(LispType::nil())
    } else if same_text(keyword.as_str(), "quote") {
        if items.len() < 2 {
            report(journal, Notice::Malformed);
            Some(LispType::nil())
        } else {
            Some(items[1].copy())
        }
    } else if same_text(keyword.as_str(), "set!") {
        eval_bind(false, items, env, unit, journal, fuel)
    } else if same_text(keyword.as_str(), "lambda") {
        Some(make_lambda(items, env, journal))
    } else {
        report(journal, Notice::UndefinedKeyword);
        Some(LispType::nil())
    }
}

/// Evaluates `(if test then else)`.
fn eval_if<U: FloatUnit>(
    items: &Vec<LispType>,
    env: &mut Env,
    unit: &U,
    journal: &mut Vec<Notice>,
    fuel: usize,
) -> (out: Option<LispType>)
    requires
        old(env).wf(),
    ensures
        final(env).wf(),
        kept(old(env)@, final(env)@),
        branches(
            unit,
            views(items@),
            state_of(old(env), old(journal)),
            fuel as nat,
            view_of(out),
            state_of(final(env), final(journal)),
        ),
    decreases 2 * fuel + 1, views(items@), 1nat, 0nat,
{
    if items.len() < 4 {
        report(journal, Notice::Malformed);
        return Some(LispType::nil());
    }
    proof {
        assert(views(items@)[1] == items[1]@);
        assert(views(items@)[2] == items[2]@);
        assert(views(items@)[3] == items[3]@);
    }
    match eval(&items[1], env, unit, journal, fuel) {
        None => {
            assert(reached(None::<Value>, state_of(env, journal)));
            None
        },
        Some(test) => {
            assert(reached(Some(test@), state_of(env, journal)));
            if test.is_truthy() {
                eval(&items[2], env, unit, journal, fuel)
            } else {
                eval(&items[3], env, unit, journal, fuel)
            }
        },
    }
}

/// Evaluates `(define name x)` if `define`, else `(set! name x)`.
fn eval_bind<U: FloatUnit>(
    define: bool,
    items: &Vec<LispType>,
    env: &mut Env,
    unit: &U,
    journal: &mut Vec<Notice>,
    fuel: usize,
) -> (out: Option<LispType>)
    requires
        old(env).wf(),
    ensures
        final(env).wf(),
        kept(old(env)@, final(env)@),
        binds(
            unit,
            define,
            views(items@),
            state_of(old(env), old(journal)),
            fuel as nat,
            view_of(out),
            state_of(final(env), final(journal)),
        ),
    decreases 2 * fuel + 1, views(items@), 1nat, 0nat,
{
    if items.len() < 3 {
        report(journal, Notice::Malformed);
        return Some(LispType::nil());
    }
    match &items[1] {
        LispType::Atom(Atomic::Symbol(name)) => {
            proof {
                assert(views(items@)[2] == items[2]@);
            }
            match eval(&items[2], env, unit, journal, fuel) {
                None => {
                    assert(reached(None::<Value>, state_of(env, journal)));
                    None
                },
                Some(value) => {
                    assert(reached(Some(value@), state_of(env, journal)));
                    if define {
                        if !env.add_symbol(name, &value) {
                            report(journal, Notice::Redefinition(name.clone()));
                        }
                    } else {
                        if !env.set_symbol(name, &value) {
                            report(journal, Notice::UndefinedAssignment);
                        }
                    }
                    Some(LispType::nil())
                },
            }
        },
        _ => {
            report(journal, Notice::InvalidName);
            Some(LispType::nil())
        },
    }
}

/// Evaluates `(lambda (p ...) body)`.
fn make_lambda(items: &Vec<LispType>, env: &mut Env, journal: &mut Vec<Notice>) -> (r: LispType)
    requires
        old(env).wf(),
    ensures
        final(env).wf(),
        kept(old(env)@, final(env)@),
        (r@, state_of(final(env), final(journal))) == lambda_outcome(
            views(items@),
            state_of(old(env), old(journal)),
        ),
{
    if items.len() < 3 {
        report(journal, Notice::Malformed);
        return LispType::nil();
    }
    match &items[1] {
        LispType::List(given) => {
            let mut params: Vec<String> = Vec::new();
            let mut i: usize = 0;
            while i < given.len()
                invariant
                    i <= given.len(),
                    params.len() == i,
                    forall|j: int| 0 <= j < i ==> views(given@)[j] is Symbol,
                    forall|j: int| 0 <= j < i ==> params[j]@ == views(given@)[j]->Symbol_0,
                    items.len() >= 3,
                    env.wf(),
                    items[1] == LispType::List(*given),
                    journal@ == old(journal)@,
                    env@ == old(env)@,
                decreases given.len() - i,
            {
                match &given[i] {
                    LispType::Atom(Atomic::Symbol(name)) => {
                        params.push(name.clone());
                    },
                    _ => {
                        assert(!(views(given@)[i as int] is Symbol));
                        report(journal, Notice::InvalidParameter);
                        return LispType::nil();
                    },
                }
                i = i + 1;
            }
            assert(texts(params@) =~= symbol_names(views(given@)));
            let scope = env.capture();
            LispType::Atom(Atomic::Proc(Box::new(Proc { params, expr: items[2].copy(), scope })))
        },
        _ => {
            report(journal, Notice::LambdaSyntax);
            LispType::nil()
        },
    }
}

/// Evaluates the operands of a form, from left to right.
fn eval_args<U: FloatUnit>(
    items: &Vec<LispType>,
    env: &mut Env,
    unit: &U,
    journal: &mut Vec<Notice>,
    fuel: usize,
) -> (out: Option<Vec<LispType>>)
    requires
        old(env).wf(),
        items.len() > 0,
    ensures
        final(env).wf(),
        kept(old(env)@, final(env)@),
        args_evaluated(
            unit,
            views(items@),
            items.len() as nat,
            state_of(old(env), old(journal)),
            fuel as nat,
            match out {
                Some(values) => Some(views(values@)),
                None => None,
            },
            state_of(final(env), final(journal)),
        ),
    decreases 2 * fuel + 1, views(items@), 1nat, items.len(),
{
    let mut values: Vec<LispType> = Vec::new();
    let mut i: usize = 1;
    let ghost s0 = state_of(env, journal);
    assert(views(values@) =~= Seq::<Value>::empty());
    while i < items.len()
        invariant
            1 <= i <= items.len(),
            env.wf(),
            kept(old(env)@, env@),
            s0 == state_of(old(env), old(journal)),
            args_evaluated(
                unit,
                views(items@),
                i as nat,
                s0,
                fuel as nat,
                Some(views(values@)),
                state_of(env, journal),
            ),
        decreases items.len() - i,
    {
        let ghost sb = state_of(env, journal);
        let ghost before = views(values@);
        proof {
            assert(views(items@)[i as int] == items[i as int]@);
        }
        match eval(&items[i], env, unit, journal, fuel) {
            None => {
                proof {
                    assert(reached(Some(before), sb));
                    assert(args_evaluated(
                        unit,
                        views(items@),
                        (i + 1) as nat,
                        s0,
                        fuel as nat,
                        None,
                        state_of(env, journal),
                    ));
                    lemma_args_exhausted(
                        unit,
                        views(items@),
                        (i + 1) as nat,
                        items.len() as nat,
                        s0,
                        fuel as nat,
                        state_of(env, journal),
                    );
                }
                return None;
            },
            Some(v) => {
                values.push(v);
                proof {
                    assert(views(values@).drop_last() =~= before);
                    assert(reached(Some(before), sb));
                    assert(args_evaluated(
                        unit,
                        views(items@),
                        (i + 1) as nat,
                        s0,
                        fuel as nat,
                        Some(views(values@)),
                        state_of(env, journal),
                    ));
                }
            },
        }
        i = i + 1;
    }
    Some(values)
}

impl Proc {
    /// Runs the procedure on arguments that have been evaluated.
    pub fn run<U: FloatUnit>(
        &self,
        args: Vec<LispType>,
        env: &mut Env,
        unit: &U,
        journal: &mut Vec<Notice>,
        fuel: usize,
    ) -> (out: Option<LispType>)
        requires
            old(env).wf(),
        ensures
            final(env).wf(),
            kept(old(env)@, final(env)@),
            invoked(
                unit,
                texts(self.params@),
                self.expr@,
                self.scope as nat,
                views(args@),
                state_of(old(env), old(journal)),
                fuel as nat,
                view_of(out),
                state_of(final(env), final(journal)),
            ),
        decreases 2 * fuel, self.expr@, 0nat, 0nat,
    {
        if args.len() != self.params.len() {
            report(journal, Notice::ArityMismatch);
            return Some(LispType::nil());
        }
        if fuel == 0 || env.len() == usize::MAX {
            return None;
        }
        let ghost s = state_of(env, journal);
        let caller = env.current();
        let frame = env.enter(self.scope);
        let mut i: usize = 0;
        while i < args.len()
            invariant
                i <= args.len(),
                args.len() == self.params.len(),
                env.wf(),
                env@.current == frame,
                env@.scopes.len() == frame + 1,
                state_of(env, journal) == (State { env: s.env.enter(self.scope as nat), ..s }).bound(
                    texts(self.params@),
                    views(args@),
                    i as nat,
                ),
            decreases args.len() - i,
        {
            if !env.add_symbol(&self.params[i], &args[i]) {
                report(journal, Notice::Redefinition(self.params[i].clone()));
            }
            i = i + 1;
        }
        let out = eval(&self.expr, env, unit, journal, fuel - 1);
        let ghost sb = state_of(env, journal);
        env.leave(frame, caller);
        proof {
            assert(reached(view_of(out), sb));
            assert(evaluates(
                unit,
                self.expr@,
                (State { env: s.env.enter(self.scope as nat), ..s }).bound(
                    texts(self.params@),
                    views(args@),
                    texts(self.params@).len(),
                ),
                (fuel - 1) as nat,
                view_of(out),
                sb,
            ));
        }
        out
    }
}

} // verus!
