//! From tokens to a form.

use vstd::prelude::*;
use crate::lexer::{closing, opening};
use crate::number::{integer_value, is_number, kind_of, parse_integer};
use crate::text::same_text;
use crate::unit::FloatUnit;
use crate::value::{texts, views, Atomic, LispType, Value};

verus! {

broadcast use {crate::value::lemma_list_view, crate::value::lemma_views_push};

/// The atom that a token stands for: `nil`, `t`, an integer that can be held,
/// another numeral, which denotes the binary64 number that the unit makes of
/// it, or else a symbol.
pub open spec fn atom_of<U: FloatUnit>(unit: &U, token: Seq<char>) -> Value {
    if token == "nil"@ {
        Value::Nil
    } else if token == "t"@ {
        Value::True
    } else if kind_of(token) == 1 {
        match integer_value(token) {
            Some(n) => Value::Number(n),
            None => Value::Symbol(token),
        }
    } else if kind_of(token) == 2 {
        Value::Float(unit.parse_of(token))
    } else {
        Value::Symbol(token)
    }
}

/// The depth inside one more bracket.
pub open spec fn deeper(depth: i32) -> i32 {
    if depth < i32::MAX {
        (depth + 1) as i32
    } else {
        depth
    }
}

/// What is read from the tokens at `idx` on, after the items `items` of the
/// list that is being read, and the index of the first token that is not taken.
///
/// `(` begins a list, which becomes one item. `)` ends the list that is being
/// read. Where the tokens end, that list ends too; at depth 0 the last form that
/// was read is the result, and the empty list if none was.
pub open spec fn read<U: FloatUnit>(
    unit: &U,
    tokens: Seq<Seq<char>>,
    idx: nat,
    depth: i32,
    items: Seq<Value>,
) -> (Value, nat)
    decreases tokens.len() - idx,
{
    if idx >= tokens.len() {
        (
            if depth == 0 && items.len() > 0 {
                items.last()
            } else {
                Value::List(items)
            },
            idx,
        )
    } else if tokens[idx as int] == closing() {
        (Value::List(items), idx + 1)
    } else if tokens[idx as int] == opening() {
        let inner = read(unit, tokens, idx + 1, deeper(depth), Seq::empty());
        if idx < inner.1 <= tokens.len() {
            read(unit, tokens, inner.1, depth, items.push(inner.0))
        } else {
            (Value::List(items.push(inner.0)), inner.1)
        }
    } else {
        read(unit, tokens, idx + 1, depth, items.push(atom_of(unit, tokens[idx as int])))
    }
}

/// Reading takes tokens and does not go past their end.
pub proof fn lemma_read_advances<U: FloatUnit>(
    unit: &U,
    tokens: Seq<Seq<char>>,
    idx: nat,
    depth: i32,
    items: Seq<Value>,
)
    requires
        idx <= tokens.len(),
    ensures
        idx <= read(unit, tokens, idx, depth, items).1 <= tokens.len(),
        idx < tokens.len() ==> idx < read(unit, tokens, idx, depth, items).1,
    decreases tokens.len() - idx,
{
    if idx < tokens.len() && tokens[idx as int] != closing() {
        if tokens[idx as int] == opening() {
            lemma_read_advances(unit, tokens, idx + 1, deeper(depth), Seq::empty());
            let inner = read(unit, tokens, idx + 1, deeper(depth), Seq::empty());
            lemma_read_advances(unit, tokens, inner.1, depth, items.push(inner.0));
        } else {
            lemma_read_advances(
                unit,
                tokens,
                idx + 1,
                depth,
                items.push(atom_of(unit, tokens[idx as int])),
            );
        }
    }
}

/// The atom that a token stands for.
fn read_atom<U: FloatUnit>(unit: &U, token: &String) -> (r: LispType)
    ensures
        r@ == atom_of(unit, token@),
{
    if same_text(token.as_str(), "nil") {
        LispType::Atom(Atomic::nil)
    } else if same_text(token.as_str(), "t") {
        LispType::Atom(Atomic::t)
    } else {
        let kind = is_number(token);
        if kind == 1 {
            match parse_integer(token.as_str()) {
                Some(n) => LispType::Atom(Atomic::Number(n)),
                None => LispType::Atom(Atomic::Symbol(token.clone())),
            }
        } else if kind == 2 {
            LispType::Atom(Atomic::Float(unit.parse(token.as_str())))
        } else {
            LispType::Atom(Atomic::Symbol(token.clone()))
        }
    }
}

/// Reads one form from the tokens at `*idx` on, and moves `*idx` past what it
/// took.
///
/// At depth 0 the form is the last of the forms that the tokens hold; inside a
/// bracket it is the list of the forms up to the bracket's end.
pub fn cvt_to_nested_expression<U: FloatUnit>(
    unit: &U,
    splited_cmd: &[String],
    idx: &mut usize,
    depth: i32,
) -> (r: LispType)
    ensures
        r@ == read(unit, texts(splited_cmd@), *old(idx) as nat, depth, Seq::empty()).0,
        *final(idx) == read(unit, texts(splited_cmd@), *old(idx) as nat, depth, Seq::empty()).1,
    decreases splited_cmd.len() - *old(idx),
{
    let ghost tokens = texts(splited_cmd@);
    let ghost goal = read(unit, tokens, *idx as nat, depth, Seq::empty());
    let ghost mut items: Seq<Value> = Seq::empty();
    let mut tv: Vec<LispType> = Vec::new();
    proof {
        reveal_strlit("(");
        reveal_strlit(")");
    }
    while *idx < splited_cmd.len()
        invariant
            tokens == texts(splited_cmd@),
            *old(idx) <= *idx,
            *idx <= splited_cmd.len() || *idx == *old(idx),
            "("@ == opening(),
            ")"@ == closing(),
            goal == read(unit, tokens, *old(idx) as nat, depth, Seq::empty()),
            goal == read(unit, tokens, *idx as nat, depth, items),
            views(tv@) == items,
        decreases splited_cmd.len() - *idx,
    {
        let ghost at = *idx as nat;
        let content = &splited_cmd[*idx];
        *idx = *idx + 1;
        if same_text(content.as_str(), ")") {
            return LispType::List(tv);
        }
        if same_text(content.as_str(), "(") {
            let inside = if depth < i32::MAX {
                depth + 1
            } else {
                depth
            };
            let ghost inner = read(unit, tokens, at + 1, inside, Seq::empty());
            proof {
                lemma_read_advances(unit, tokens, at + 1, inside, Seq::empty());
            }
            let item = cvt_to_nested_expression(unit, splited_cmd, idx, inside);
            tv.push(item);
            proof {
                items = items.push(inner.0);
            }
        } else {
            let item = read_atom(unit, content);
            tv.push(item);
            proof {
                items = items.push(atom_of(unit, content@));
            }
        }
    }
    if depth == 0 && tv.len() > 0 {
        tv[tv.len() - 1].copy()
    } else {
        LispType::List(tv)
    }
}

} // verus!
