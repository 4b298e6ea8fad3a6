//! From a value to text.

use vstd::prelude::*;
use crate::text::{chars_of, push_char, string_of};
use crate::unit::FloatUnit;
use crate::value::{views, Atomic, LispType, Value};

verus! {

broadcast use {crate::value::lemma_list_view, crate::value::lemma_views_push};

/// The digit for a number below ten.
pub open spec fn digit(d: nat) -> char {
    (d + 48) as u8 as char
}

/// The decimal digits of a number, without leading zeros.
pub open spec fn digits_of(n: nat) -> Seq<char>
    decreases n,
{
    if n < 10 {
        seq![digit(n)]
    } else {
        digits_of(n / 10).push(digit(n % 10))
    }
}

/// The decimal numeral of an integer, with `-` before a negative one.
pub open spec fn decimal(n: i64) -> Seq<char> {
    if n < 0 {
        seq!['-'] + digits_of((-n) as nat)
    } else {
        digits_of(n as nat)
    }
}

/// The decimal numeral of an integer.
pub fn integer_text(n: i64) -> (r: String)
    ensures
        r@ == decimal(n),
{
    let magnitude: u64 = if n < 0 {
        (-(n as i128)) as u64
    } else {
        n as u64
    };
    let mut out: Vec<char> = Vec::new();
    let mut rest: u64 = magnitude / 10;
    out.push(((magnitude % 10) as u8 + 48) as char);
    assert(digits_of(magnitude as nat) =~= (if rest == 0 {
        Seq::<char>::empty()
    } else {
        digits_of(rest as nat)
    }) + out@);
    while rest > 0
        invariant
            digits_of(magnitude as nat) == (if rest == 0 {
                Seq::<char>::empty()
            } else {
                digits_of(rest as nat)
            }) + out@,
        decreases rest,
    {
        let ghost before = out@;
        let ghost was = rest;
        out.insert(0, ((rest % 10) as u8 + 48) as char);
        rest = rest / 10;
        assert(digits_of(was as nat) + before =~= (if rest == 0 {
            Seq::<char>::empty()
        } else {
            digits_of(rest as nat)
        }) + out@);
    }
    if n < 0 {
        out.insert(0, '-');
    }
    string_of(out.as_slice())
}

/// The texts with one space between each two of them.
pub open spec fn spaced(parts: Seq<Seq<char>>) -> Seq<char>
    decreases parts.len(),
{
    if parts.len() == 0 {
        Seq::empty()
    } else if parts.len() == 1 {
        parts[0]
    } else {
        spaced(parts.drop_last()) + seq![' '] + parts.last()
    }
}

/// The texts between brackets, with one space between each two of them.
pub open spec fn bracketed(parts: Seq<Seq<char>>) -> Seq<char> {
    seq!['('] + spaced(parts) + seq![')']
}

/// Whether a character marks a numeral as one with a fraction or an exponent.
pub open spec fn is_mark(c: char) -> bool {
    c == '.' || c == 'e' || c == 'E'
}

/// Whether a text holds a point or an exponent.
pub open spec fn marked(s: Seq<char>) -> bool {
    exists|i: int| 0 <= i < s.len() && is_mark(#[trigger] s[i])
}

/// A text as it is if it holds a point or an exponent, and else with `.0` at
/// its end.
pub open spec fn completed(s: Seq<char>) -> Seq<char> {
    if marked(s) {
        s
    } else {
        s + seq!['.', '0']
    }
}

/// A completed text holds a point or an exponent.
pub proof fn lemma_completed_is_marked(s: Seq<char>)
    ensures
        marked(completed(s)),
{
    if !marked(s) {
        assert(is_mark(completed(s)[s.len() as int]));
    }
}

/// Puts `.0` at the end of a numeral that holds neither a point nor an
/// exponent, so that it does not read as an integer.
pub fn complete(text: String) -> (r: String)
    ensures
        r@ == completed(text@),
{
    let chars = chars_of(text.as_str());
    let mut i: usize = 0;
    while i < chars.len()
        invariant
            i <= chars.len(),
            chars@ == text@,
            forall|j: int| 0 <= j < i ==> !is_mark(#[trigger] chars@[j]),
        decreases chars.len() - i,
    {
        let c = chars[i];
        if c == '.' || c == 'e' || c == 'E' {
            assert(is_mark(text@[i as int]));
            return text;
        }
        i = i + 1;
    }
    proof {
        reveal_strlit(".0");
        assert(".0"@ =~= seq!['.', '0']);
    }
    text.concat(".0")
}

/// Whether `text` is the printed form of a value.
///
/// An integer prints as its decimal numeral, a binary64 number as the numeral
/// that the unit gives for it, completed by `.0` where it holds neither a point
/// nor an exponent, a symbol as its name, `nil` and `t` as themselves, a list
/// as the printed forms of its items between brackets.
pub open spec fn printed<U: FloatUnit>(unit: &U, v: Value, text: Seq<char>) -> bool
    decreases v,
{
    match v {
        Value::Number(n) => text == decimal(n),
        Value::Float(x) => text == completed(unit.render_of(x)),
        Value::Symbol(name) => text == name,
        Value::Fun(_) => text == "#<builtin>"@,
        Value::Proc(_, _, _) => text == "#<procedure>"@,
        Value::Nil => text == "nil"@,
        Value::True => text == "t"@,
        Value::List(items) => exists|parts: Seq<Seq<char>>|
            parts.len() == items.len() && (forall|i: int|
                0 <= i < items.len() ==> printed(unit, #[trigger] items[i], parts[i])) && text
                == #[trigger] bracketed(parts),
    }
}

/// The printed form of a value.
pub fn expr2str<U: FloatUnit>(unit: &U, expr: &LispType) -> (r: String)
    ensures
        printed(unit, expr@, r@),
    decreases expr,
{
    match expr {
        LispType::Atom(Atomic::Number(n)) => integer_text(*n),
        LispType::Atom(Atomic::Float(x)) => complete(unit.render(*x)),
        LispType::Atom(Atomic::Symbol(name)) => name.clone(),
        LispType::Atom(Atomic::Fun(_)) => String::from_str("#<builtin>"),
        LispType::Atom(Atomic::Proc(_)) => String::from_str("#<procedure>"),
        LispType::Atom(Atomic::nil) => String::from_str("nil"),
        LispType::Atom(Atomic::t) => String::from_str("t"),
        LispType::List(items) => {
            let mut out = String::new();
            let ghost mut parts: Seq<Seq<char>> = Seq::empty();
            push_char(&mut out, '(');
            let mut i: usize = 0;
            while i < items.len()
                invariant
                    i <= items.len(),
                    *expr == LispType::List(*items),
                    parts.len() == i,
                    forall|j: int| 0 <= j < i ==> printed(unit, #[trigger] views(items@)[j], parts[j]),
                    out@ == seq!['('] + spaced(parts),
                decreases items.len() - i,
            {
                assert(decreases_to!(*expr => expr->List_0));
                let part = expr2str(unit, &items[i]);
                let ghost before = parts;
                if i > 0 {
                    push_char(&mut out, ' ');
                }
                out.append(part.as_str());
                proof {
                    parts = parts.push(part@);
                    assert(parts.drop_last() =~= before);
                }
                i = i + 1;
            }
            push_char(&mut out, ')');
            proof {
                assert(out@ =~= bracketed(parts));
            }
            out
        },
    }
}

} // verus!
