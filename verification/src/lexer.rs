//! From a line of text to tokens.
//!
//! White space at the ends of the line is dropped, spaces are put around every
//! bracket, so that each stands alone, the text is split at the white space of
//! ASCII, and the shorthand `'x` is written out as `(quote x)`. Between a quote
//! mark and the `(` after it no space is put: `'(` stays one token.

use vstd::prelude::*;
use vstd::slice::slice_subrange;
use crate::text::{chars_of, string_of};
use crate::value::texts;

verus! {

/// White space as Unicode has it.
pub open spec fn is_blank(c: char) -> bool {
    ('\t' <= c <= '\r') || c == ' ' || c == '\u{85}' || c == '\u{a0}' || c == '\u{1680}' || (
    '\u{2000}' <= c <= '\u{200a}') || c == '\u{2028}' || c == '\u{2029}' || c == '\u{202f}'
        || c == '\u{205f}' || c == '\u{3000}'
}

/// The text without the white space at its beginning.
pub open spec fn trim_start(s: Seq<char>) -> Seq<char>
    decreases s.len(),
{
    if s.len() > 0 && is_blank(s[0]) {
        trim_start(s.drop_first())
    } else {
        s
    }
}

/// The text without the white space at its end.
pub open spec fn trim_end(s: Seq<char>) -> Seq<char>
    decreases s.len(),
{
    if s.len() > 0 && is_blank(s.last()) {
        trim_end(s.drop_last())
    } else {
        s
    }
}

/// The text without the white space at its ends.
pub open spec fn trimmed(s: Seq<char>) -> Seq<char> {
    trim_end(trim_start(s))
}

proof fn lemma_trim_start(s: Seq<char>, i: int)
    requires
        0 <= i <= s.len(),
        forall|j: int| 0 <= j < i ==> is_blank(#[trigger] s[j]),
        i == s.len() || !is_blank(s[i]),
    ensures
        trim_start(s) == s.skip(i),
    decreases i,
{
    if i > 0 {
        lemma_trim_start(s.drop_first(), i - 1);
    }
}

proof fn lemma_trim_end(s: Seq<char>, k: int)
    requires
        0 <= k <= s.len(),
        forall|j: int| k <= j < s.len() ==> is_blank(#[trigger] s[j]),
        k == 0 || !is_blank(s[k - 1]),
    ensures
        trim_end(s) == s.take(k),
    decreases s.len() - k,
{
    if k < s.len() {
        lemma_trim_end(s.drop_last(), k);
    }
}

/// The white space of ASCII: space, tab, line feed, form feed, carriage return.
pub open spec fn is_space(c: char) -> bool {
    c == ' ' || c == '\t' || c == '\n' || c == '\x0C' || c == '\r'
}

/// The character at `i` with the spaces that are put beside it: one on each
/// side of a bracket, but none between a quote mark and the `(` after it, and
/// one before such a quote mark.
pub open spec fn padded(s: Seq<char>, i: int) -> Seq<char> {
    if s[i] == '(' {
        if i > 0 && s[i - 1] == '\'' {
            seq!['(', ' ']
        } else {
            seq![' ', '(', ' ']
        }
    } else if s[i] == ')' {
        seq![' ', ')', ' ']
    } else if s[i] == '\'' && i + 1 < s.len() && s[i + 1] == '(' {
        seq![' ', '\'']
    } else {
        seq![s[i]]
    }
}

/// The first `n` characters of a text, each with the spaces that are put
/// beside it.
pub open spec fn pad_upto(s: Seq<char>, n: nat) -> Seq<char>
    decreases n,
{
    if n == 0 || n > s.len() {
        Seq::empty()
    } else {
        pad_upto(s, (n - 1) as nat) + padded(s, n - 1)
    }
}

/// The text with spaces around every bracket.
pub open spec fn pad(s: Seq<char>) -> Seq<char> {
    pad_upto(s, s.len())
}

/// Where the splitting of a text stands: the words that have ended, and the
/// characters of the word that has not.
pub struct Split {
    pub done: Seq<Seq<char>>,
    pub word: Seq<char>,
}

impl Split {
    /// The words once the text has ended.
    pub open spec fn closed(self) -> Seq<Seq<char>> {
        if self.word.len() == 0 {
            self.done
        } else {
            self.done.push(self.word)
        }
    }
}

/// The text read from left to right: white space ends a word, any other
/// character goes on with one.
pub open spec fn scan(s: Seq<char>) -> Split
    decreases s.len(),
{
    if s.len() == 0 {
        Split { done: Seq::empty(), word: Seq::empty() }
    } else if is_space(s.last()) {
        Split { done: scan(s.drop_last()).closed(), word: Seq::empty() }
    } else {
        Split { done: scan(s.drop_last()).done, word: scan(s.drop_last()).word.push(s.last()) }
    }
}

/// The words of a text: its longest stretches without white space, in order.
pub open spec fn words(s: Seq<char>) -> Seq<Seq<char>> {
    scan(s).closed()
}

/// A stretch of characters without white space.
pub open spec fn unbroken(w: Seq<char>) -> bool {
    forall|j: int| 0 <= j < w.len() ==> !is_space(#[trigger] w[j])
}

/// Words of which none is empty and none holds white space.
pub open spec fn solid(ws: Seq<Seq<char>>) -> bool {
    forall|i: int| 0 <= i < ws.len() ==> (#[trigger] ws[i]).len() > 0 && unbroken(ws[i])
}

proof fn lemma_scan_solid(s: Seq<char>)
    ensures
        solid(scan(s).done),
        unbroken(scan(s).word),
    decreases s.len(),
{
    if s.len() > 0 {
        lemma_scan_solid(s.drop_last());
    }
}

/// No word of a text is empty, and no word holds white space.
pub proof fn lemma_words_solid(s: Seq<char>)
    ensures
        solid(words(s)),
{
    lemma_scan_solid(s);
}

/// Where the writing out of `'` stands: the tokens so far, and for each bracket
/// that is open whether it came with a `'`.
pub struct Expansion {
    pub out: Seq<Seq<char>>,
    pub open: Seq<bool>,
}

/// The token `(`.
pub open spec fn opening() -> Seq<char> {
    seq!['(']
}

/// The token `)`.
pub open spec fn closing() -> Seq<char> {
    seq![')']
}

/// The token `'(`.
pub open spec fn quoted_opening() -> Seq<char> {
    seq!['\'', '(']
}

/// The token `quote`.
pub open spec fn quote_word() -> Seq<char> {
    seq!['q', 'u', 'o', 't', 'e']
}

impl Expansion {
    /// One more word taken in. `'(` becomes `( quote (`, and the `)` that
    /// closes it is written twice; a `)` that closes nothing is dropped; any
    /// other word `'x` becomes `( quote x )`.
    pub open spec fn step(self, w: Seq<char>) -> Expansion {
        if w == quoted_opening() {
            Expansion {
                out: self.out + seq![opening(), quote_word(), opening()],
                open: self.open.push(true),
            }
        } else if w == opening() {
            Expansion { out: self.out.push(opening()), open: self.open.push(false) }
        } else if w == closing() {
            if self.open.len() == 0 {
                self
            } else if self.open.last() {
                Expansion {
                    out: self.out + seq![closing(), closing()],
                    open: self.open.drop_last(),
                }
            } else {
                Expansion { out: self.out.push(closing()), open: self.open.drop_last() }
            }
        } else if w.len() > 0 && w[0] == '\'' {
            Expansion {
                out: self.out + seq![opening(), quote_word(), w.skip(1), closing()],
                ..self
            }
        } else {
            Expansion { out: self.out.push(w), ..self }
        }
    }
}

/// The words taken in from left to right.
pub open spec fn expand(ws: Seq<Seq<char>>) -> Expansion
    decreases ws.len(),
{
    if ws.len() == 0 {
        Expansion { out: Seq::empty(), open: Seq::empty() }
    } else {
        expand(ws.drop_last()).step(ws.last())
    }
}

/// The tokens of a line of text.
pub open spec fn tokens(cmd: Seq<char>) -> Seq<Seq<char>> {
    expand(words(pad(trimmed(cmd)))).out
}

/// The character sequences that a sequence of vectors holds.
pub open spec fn lines(s: Seq<Vec<char>>) -> Seq<Seq<char>> {
    Seq::new(s.len(), |i: int| s[i]@)
}

fn is_blank_char(c: char) -> (b: bool)
    ensures
        b == is_blank(c),
{
    (c >= '\t' && c <= '\r') || c == ' ' || c == '\u{85}' || c == '\u{a0}' || c == '\u{1680}' || (c
        >= '\u{2000}' && c <= '\u{200a}') || c == '\u{2028}' || c == '\u{2029}' || c
        == '\u{202f}' || c == '\u{205f}' || c == '\u{3000}'
}

fn trim_chars(chars: &Vec<char>) -> (r: Vec<char>)
    ensures
        r@ == trimmed(chars@),
{
    let mut start: usize = 0;
    while start < chars.len() && is_blank_char(chars[start])
        invariant
            start <= chars.len(),
            forall|j: int| 0 <= j < start ==> is_blank(#[trigger] chars@[j]),
        decreases chars.len() - start,
    {
        start = start + 1;
    }
    let mut end: usize = chars.len();
    while end > start && is_blank_char(chars[end - 1])
        invariant
            start <= end <= chars.len(),
            forall|j: int| end <= j < chars.len() ==> is_blank(#[trigger] chars@[j]),
        decreases end,
    {
        end = end - 1;
    }
    proof {
        lemma_trim_start(chars@, start as int);
        lemma_trim_end(chars@.skip(start as int), end - start);
    }
    let mut out: Vec<char> = Vec::new();
    let mut i: usize = start;
    while i < end
        invariant
            start <= i <= end <= chars.len(),
            out@ == chars@.subrange(start as int, i as int),
        decreases end - i,
    {
        out.push(chars[i]);
        i = i + 1;
    }
    assert(chars@.skip(start as int).take(end - start) =~= chars@.subrange(
        start as int,
        end as int,
    ));
    out
}

fn pad_chars(chars: &Vec<char>) -> (r: Vec<char>)
    ensures
        r@ == pad(chars@),
{
    let mut out: Vec<char> = Vec::new();
    let mut i: usize = 0;
    while i < chars.len()
        invariant
            i <= chars.len(),
            out@ == pad_upto(chars@, i as nat),
        decreases chars.len() - i,
    {
        let c = chars[i];
        let ghost before = out@;
        if c == '(' {
            if i == 0 || chars[i - 1] != '\'' {
                out.push(' ');
            }
            out.push('(');
            out.push(' ');
        } else if c == ')' {
            out.push(' ');
            out.push(')');
            out.push(' ');
        } else if c == '\'' && i + 1 < chars.len() && chars[i + 1] == '(' {
            out.push(' ');
            out.push('\'');
        } else {
            out.push(c);
        }
        assert(out@ =~= before + padded(chars@, i as int));
        i = i + 1;
    }
    out
}

fn split_words(chars: &Vec<char>) -> (r: Vec<Vec<char>>)
    ensures
        lines(r@) == words(chars@),
{
    let mut done: Vec<Vec<char>> = Vec::new();
    let mut word: Vec<char> = Vec::new();
    let mut i: usize = 0;
    while i < chars.len()
        invariant
            i <= chars.len(),
            lines(done@) == scan(chars@.take(i as int)).done,
            word@ == scan(chars@.take(i as int)).word,
        decreases chars.len() - i,
    {
        let c = chars[i];
        proof {
            assert(chars@.take(i + 1).drop_last() == chars@.take(i as int));
        }
        if c == ' ' || c == '\t' || c == '\n' || c == '\x0C' || c == '\r' {
            if word.len() > 0 {
                done.push(word);
                word = Vec::new();
            }
        } else {
            word.push(c);
        }
        i = i + 1;
    }
    assert(chars@.take(chars.len() as int) == chars@);
    if word.len() > 0 {
        done.push(word);
    }
    done
}

fn push_token(out: &mut Vec<String>, token: String)
    ensures
        texts(final(out)@) == texts(old(out)@).push(token@),
{
    out.push(token);
}

fn push_opening(out: &mut Vec<String>)
    ensures
        texts(final(out)@) == texts(old(out)@).push(opening()),
{
    proof {
        reveal_strlit("(");
    }
    let token = String::from_str("(");
    assert(token@ =~= opening());
    push_token(out, token);
}

fn push_closing(out: &mut Vec<String>)
    ensures
        texts(final(out)@) == texts(old(out)@).push(closing()),
{
    proof {
        reveal_strlit(")");
    }
    let token = String::from_str(")");
    assert(token@ =~= closing());
    push_token(out, token);
}

fn push_quote(out: &mut Vec<String>)
    ensures
        texts(final(out)@) == texts(old(out)@).push(quote_word()),
{
    proof {
        reveal_strlit("quote");
    }
    let token = String::from_str("quote");
    assert(token@ =~= quote_word());
    push_token(out, token);
}

fn expand_words(ws: &Vec<Vec<char>>) -> (r: Vec<String>)
    ensures
        texts(r@) == expand(lines(ws@)).out,
{
    let mut out: Vec<String> = Vec::new();
    let mut open: Vec<bool> = Vec::new();
    let mut i: usize = 0;
    while i < ws.len()
        invariant
            i <= ws.len(),
            texts(out@) == expand(lines(ws@).take(i as int)).out,
            open@ == expand(lines(ws@).take(i as int)).open,
        decreases ws.len() - i,
    {
        let w = &ws[i];
        let ghost before = expand(lines(ws@).take(i as int));
        proof {
            assert(lines(ws@).take(i + 1).drop_last() == lines(ws@).take(i as int));
        }
        if w.len() == 2 && w[0] == '\'' && w[1] == '(' {
            assert(w@ =~= quoted_opening());
            push_opening(&mut out);
            push_quote(&mut out);
            push_opening(&mut out);
            open.push(true);
        } else if w.len() == 1 && w[0] == '(' {
            assert(w@ =~= opening());
            push_opening(&mut out);
            open.push(false);
        } else if w.len() == 1 && w[0] == ')' {
            assert(w@ =~= closing());
            match open.pop() {
                Some(quoted) => {
                    push_closing(&mut out);
                    if quoted {
                        push_closing(&mut out);
                    }
                },
                None => {},
            }
        } else if w.len() > 0 && w[0] == '\'' {
            push_opening(&mut out);
            push_quote(&mut out);
            let rest = string_of(slice_subrange(w.as_slice(), 1, w.len()));
            push_token(&mut out, rest);
            push_closing(&mut out);
            assert(texts(out@) =~= before.out + seq![
                opening(),
                quote_word(),
                w@.skip(1),
                closing(),
            ]);
        } else {
            push_token(&mut out, string_of(w.as_slice()));
        }
        i = i + 1;
    }
    assert(lines(ws@).take(ws.len() as int) == lines(ws@));
    out
}

/// Splits a line of text into tokens.
pub fn split_cmd_to_vec(cmd: &str) -> (r: Vec<String>)
    ensures
        texts(r@) == tokens(cmd@),
{
    let chars = trim_chars(&chars_of(cmd));
    let padded = pad_chars(&chars);
    let ws = split_words(&padded);
    expand_words(&ws)
}

} // verus!
