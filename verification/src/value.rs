//! The values of the language, and the mathematical model that contracts speak of.

use vstd::prelude::*;

verus! {

broadcast use vstd::std_specs::vec::axiom_vec_index_decreases;

/// The procedures that the interpreter itself provides.
#[derive(Clone, Copy, Debug, PartialEq, Eq, Structural)]
pub enum Builtin {
    Add,
    Minus,
    Mul,
    Div,
    Gt,
    Ge,
    Lt,
    Le,
    Eq,
    Neq,
    Begin,
    Max,
    Min,
    Abs,
    Append,
    Cons,
    Car,
    Cdr,
    Apply,
    MapEach,
    List,
}

/// The model of a value: what a [`LispType`] stands for.
///
/// A `Float` holds the bit pattern of a binary64 number. A `Proc` holds the
/// parameter names, the body, and the index of the scope it was made in.
pub enum Value {
    Number(i64),
    Float(u64),
    Symbol(Seq<char>),
    Fun(Builtin),
    Proc(Seq<Seq<char>>, Box<Value>, nat),
    Nil,
    True,
    List(Seq<Value>),
}

/// A value that is not a list.
#[derive(Debug, PartialEq)]
#[allow(non_camel_case_types)]
pub enum Atomic {
    /// A signed integer.
    Number(i64),
    /// A binary64 number, by its bits.
    Float(u64),
    /// An identifier.
    Symbol(String),
    /// A builtin procedure.
    Fun(Builtin),
    /// A procedure made by `lambda`.
    Proc(Box<Proc>),
    /// False, and the empty list.
    nil,
    /// True.
    t,
}

/// A value: an atom or a list of values. Also the form in which programs are held.
#[derive(Debug, PartialEq)]
pub enum LispType {
    Atom(Atomic),
    List(Vec<LispType>),
}

/// A procedure made by `lambda`: parameter names, a body, and the scope in which
/// the `lambda` form was evaluated.
#[derive(Debug, PartialEq)]
pub struct Proc {
    pub params: Vec<String>,
    pub expr: LispType,
    pub scope: usize,
}

/// The character sequences that a sequence of strings holds.
pub open spec fn texts(s: Seq<String>) -> Seq<Seq<char>> {
    Seq::new(s.len(), |i: int| s[i]@)
}

/// The models of the first `n` values of a sequence, by which the model of a
/// list is defined; equal to [`views`] of those values.
pub open spec fn views_upto(s: Seq<LispType>, n: nat) -> Seq<Value>
    decreases s, n,
{
    if n == 0 || n > s.len() {
        Seq::empty()
    } else {
        views_upto(s, (n - 1) as nat).push(s[n - 1].view())
    }
}

impl View for LispType {
    type V = Value;

    open spec fn view(&self) -> Value
        decreases self,
    {
        match self {
            LispType::Atom(Atomic::Number(n)) => Value::Number(*n),
            LispType::Atom(Atomic::Float(x)) => Value::Float(*x),
            LispType::Atom(Atomic::Symbol(s)) => Value::Symbol(s@),
            LispType::Atom(Atomic::Fun(f)) => Value::Fun(*f),
            LispType::Atom(Atomic::Proc(p)) => Value::Proc(
                texts(p.params@),
                Box::new(p.expr.view()),
                p.scope as nat,
            ),
            LispType::Atom(Atomic::nil) => Value::Nil,
            LispType::Atom(Atomic::t) => Value::True,
            LispType::List(items) => Value::List(views_upto(items@, items@.len())),
        }
    }
}

/// The models of a sequence of values.
pub open spec fn views(s: Seq<LispType>) -> Seq<Value> {
    Seq::new(s.len(), |i: int| s[i]@)
}

/// The model of an optional value.
pub open spec fn view_of(v: Option<LispType>) -> Option<Value> {
    match v {
        Some(x) => Some(x@),
        None => None,
    }
}

impl Value {
    /// Everything but `nil` counts as true.
    pub open spec fn truthy(self) -> bool {
        self != Value::Nil
    }

    /// An integer or a binary64 number.
    pub open spec fn numeric(self) -> bool {
        self is Number || self is Float
    }

    /// The number of atoms and lists in a value, procedures counted as atoms.
    pub open spec fn weight(self) -> nat
        decreases self,
    {
        match self {
            Value::List(items) => 1 + total_weight(items),
            _ => 1,
        }
    }
}

/// The weights of the values of a sequence, added up.
pub open spec fn total_weight(s: Seq<Value>) -> nat
    decreases s, s.len(),
{
    if s.len() == 0 {
        0
    } else {
        total_weight(s.drop_last()) + s.last().weight()
    }
}

proof fn lemma_views_upto(s: Seq<LispType>, n: nat)
    requires
        n <= s.len(),
    ensures
        views_upto(s, n) == views(s.take(n as int)),
    decreases n,
{
    if n > 0 {
        lemma_views_upto(s, (n - 1) as nat);
        assert(views(s.take(n - 1)).push(s[n - 1]@) =~= views(s.take(n as int)));
    }
}

/// The model of a list is the list of its items' models.
pub broadcast proof fn lemma_list_view(items: Vec<LispType>)
    ensures
        #[trigger] LispType::List(items)@ == Value::List(views(items@)),
{
    lemma_views_upto(items@, items@.len());
    assert(items@.take(items@.len() as int) == items@);
}

/// The weight of a concatenation is the sum of the weights.
pub proof fn lemma_weight_concat(a: Seq<Value>, b: Seq<Value>)
    ensures
        total_weight(a + b) == total_weight(a) + total_weight(b),
    decreases b.len(),
{
    if b.len() > 0 {
        lemma_weight_concat(a, b.drop_last());
        assert((a + b).drop_last() =~= a + b.drop_last());
    }
}

/// No value of a sequence weighs more than the sequence.
pub proof fn lemma_weight_item(s: Seq<Value>, i: int)
    requires
        0 <= i < s.len(),
    ensures
        s[i].weight() <= total_weight(s),
    decreases s.len(),
{
    if i < s.len() - 1 {
        lemma_weight_item(s.drop_last(), i);
    }
}

/// The models of a sequence with one more value are the models of the sequence
/// with the model of that value.
pub broadcast proof fn lemma_views_push(s: Seq<LispType>, x: LispType)
    ensures
        #[trigger] views(s.push(x)) == views(s).push(x@),
{
}

impl LispType {
    /// A copy of the value.
    pub fn copy(&self) -> (r: LispType)
        ensures
            r@ == self@,
        decreases self,
    {
        match self {
            LispType::Atom(Atomic::Number(n)) => LispType::Atom(Atomic::Number(*n)),
            LispType::Atom(Atomic::Float(x)) => LispType::Atom(Atomic::Float(*x)),
            LispType::Atom(Atomic::Symbol(s)) => LispType::Atom(Atomic::Symbol(s.clone())),
            LispType::Atom(Atomic::Fun(f)) => LispType::Atom(Atomic::Fun(*f)),
            LispType::Atom(Atomic::Proc(p)) => {
                let params = copy_names(&p.params);
                let body = p.expr.copy();
                LispType::Atom(Atomic::Proc(Box::new(Proc { params, expr: body, scope: p.scope })))
            },
            LispType::Atom(Atomic::nil) => LispType::Atom(Atomic::nil),
            LispType::Atom(Atomic::t) => LispType::Atom(Atomic::t),
            LispType::List(items) => {
                let mut out: Vec<LispType> = Vec::new();
                let mut i: usize = 0;
                while i < items.len()
                    invariant
                        i <= items.len(),
                        out.len() == i,
                        *self == LispType::List(*items),
                        forall|j: int| 0 <= j < i ==> out[j]@ == items[j]@,
                    decreases items.len() - i,
                {
                    assert(decreases_to!(*self => self->List_0));
                    out.push(items[i].copy());
                    i = i + 1;
                }
                proof {
                    lemma_list_view(out);
                    lemma_list_view(*items);
                    assert(views(out@) =~= views(items@));
                }
                LispType::List(out)
            },
        }
    }

    /// The value `nil`.
    pub fn nil() -> (r: LispType)
        ensures
            r@ == Value::Nil,
    {
        LispType::Atom(Atomic::nil)
    }

    /// `t` for true, `nil` for false.
    pub fn truth(b: bool) -> (r: LispType)
        ensures
            r@ == (if b { Value::True } else { Value::Nil }),
    {
        if b {
            LispType::Atom(Atomic::t)
        } else {
            LispType::Atom(Atomic::nil)
        }
    }

    /// Whether the value counts as true: every value but `nil` does.
    pub fn is_truthy(&self) -> (b: bool)
        ensures
            b == self@.truthy(),
    {
        match self {
            LispType::Atom(Atomic::nil) => false,
            _ => true,
        }
    }
}

/// Copies of the strings of a vector, in order.
pub fn copy_names(names: &Vec<String>) -> (r: Vec<String>)
    ensures
        texts(r@) == texts(names@),
{
    let mut out: Vec<String> = Vec::new();
    let mut i: usize = 0;
    while i < names.len()
        invariant
            i <= names.len(),
            out.len() == i,
            forall|j: int| 0 <= j < i ==> out[j]@ == names[j]@,
        decreases names.len() - i,
    {
        out.push(names[i].clone());
        i = i + 1;
    }
    out
}

impl Clone for LispType {
    fn clone(&self) -> (r: LispType)
        ensures
            r@ == self@,
    {
        self.copy()
    }
}

} // verus!
