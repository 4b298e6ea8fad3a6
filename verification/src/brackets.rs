//! What holds of the brackets among the tokens of a line: each stands alone, and
//! they are balanced where those of the line are.

use vstd::prelude::*;
use crate::lexer::{
    closing, expand, is_blank, is_space, opening, pad, pad_upto, padded, quote_word,
    quoted_opening, scan, tokens, trim_end, trim_start, trimmed, words, Split,
};

verus! {

/// A bracket.
pub open spec fn is_bracket(c: char) -> bool {
    c == '(' || c == ')'
}

/// A text that holds no bracket.
pub open spec fn plain(w: Seq<char>) -> bool {
    forall|j: int| 0 <= j < w.len() ==> !is_bracket(#[trigger] w[j])
}

/// A token in which no bracket is merged with anything: it holds no bracket, or
/// it is `(` or `)`.
pub open spec fn alone(w: Seq<char>) -> bool {
    plain(w) || w == opening() || w == closing()
}

/// A word in which no bracket is merged with anything but the quote mark
/// before it.
pub open spec fn clean(w: Seq<char>) -> bool {
    alone(w) || w == quoted_opening()
}

/// Words each of which is clean.
pub open spec fn all_clean(ws: Seq<Seq<char>>) -> bool {
    forall|i: int| 0 <= i < ws.len() ==> clean(#[trigger] ws[i])
}

/// Tokens in each of which a bracket stands alone.
pub open spec fn all_alone(ts: Seq<Seq<char>>) -> bool {
    forall|i: int| 0 <= i < ts.len() ==> alone(#[trigger] ts[i])
}

/// One more character taken in by the splitting of a text.
pub open spec fn feed(st: Split, c: char) -> Split {
    if is_space(c) {
        Split { done: st.closed(), word: Seq::empty() }
    } else {
        Split { done: st.done, word: st.word.push(c) }
    }
}

/// More characters taken in, from left to right.
pub open spec fn feed_all(st: Split, p: Seq<char>) -> Split
    decreases p.len(),
{
    if p.len() == 0 {
        st
    } else {
        feed(feed_all(st, p.drop_last()), p.last())
    }
}

proof fn lemma_scan_append(a: Seq<char>, p: Seq<char>)
    ensures
        scan(a + p) == feed_all(scan(a), p),
    decreases p.len(),
{
    if p.len() == 0 {
        assert(a + p =~= a);
    } else {
        lemma_scan_append(a, p.drop_last());
        assert((a + p).drop_last() =~= a + p.drop_last());
        assert((a + p).last() == p.last());
    }
}

/// How many opening brackets a text has more than closing ones.
pub open spec fn depth(s: Seq<char>) -> int
    decreases s.len(),
{
    if s.len() == 0 {
        0
    } else if s.last() == '(' {
        depth(s.drop_last()) + 1
    } else if s.last() == ')' {
        depth(s.drop_last()) - 1
    } else {
        depth(s.drop_last())
    }
}

/// No beginning of the text has more closing brackets than opening ones.
pub open spec fn never_negative(s: Seq<char>) -> bool {
    forall|k: int| 0 <= k <= s.len() ==> depth(#[trigger] s.take(k)) >= 0
}

/// The brackets of a text are balanced: as many opening ones as closing ones,
/// and at no point more closing ones than opening ones.
pub open spec fn balanced(s: Seq<char>) -> bool {
    depth(s) == 0 && never_negative(s)
}

/// After `n` characters of a text have been padded and split: the words that
/// have ended are clean, the word that has not holds no bracket, a quote mark
/// that stands before a `(` is that word, and as many brackets are open as the
/// characters have opened and not closed.
proof fn lemma_split_padded(t: Seq<char>, n: nat)
    requires
        n <= t.len(),
    ensures
        all_clean(scan(pad_upto(t, n)).done),
        plain(scan(pad_upto(t, n)).word),
        n < t.len() && t[n as int] == '(' && n > 0 && t[n - 1] == '\'' ==> scan(
            pad_upto(t, n),
        ).word == seq!['\''],
        never_negative(t) ==> expand(scan(pad_upto(t, n)).done).open.len() == depth(
            t.take(n as int),
        ),
    decreases n,
{
    if n == 0 {
        assert(t.take(0) =~= Seq::<char>::empty());
    } else {
        let i = (n - 1) as int;
        lemma_split_padded(t, (n - 1) as nat);
        let before = scan(pad_upto(t, (n - 1) as nat));
        let piece = padded(t, i);
        lemma_scan_append(pad_upto(t, (n - 1) as nat), piece);
        let after = scan(pad_upto(t, n));
        assert(after == feed_all(before, piece));
        reveal_with_fuel(feed_all, 4);
        assert(t.take(n as int).drop_last() =~= t.take(i));
        assert(t.take(n as int).last() == t[i]);
        let shut = before.closed();
        assert(all_clean(shut));
        lemma_expand_plain(before.done, before.word);
        assert(opening().len() == 1 && opening()[0] == '(');
        assert(closing().len() == 1 && closing()[0] == ')');
        assert(quoted_opening().len() == 2);
        let goal = never_negative(t) ==> expand(after.done).open.len() == depth(t.take(n as int));
        if t[i] == '(' {
            if i > 0 && t[i - 1] == '\'' {
                assert(piece =~= seq!['(', ' ']);
                assert(piece.drop_last() =~= seq!['(']);
                assert(piece.drop_last().drop_last() =~= Seq::<char>::empty());
                assert(before.word.push('(') =~= quoted_opening());
                assert(after.done =~= before.done.push(quoted_opening()));
                assert(after.word =~= Seq::<char>::empty());
                lemma_expand_push(before.done, quoted_opening());
                assert(goal);
            } else {
                assert(piece =~= seq![' ', '(', ' ']);
                assert(piece.drop_last() =~= seq![' ', '(']);
                assert(piece.drop_last().drop_last() =~= seq![' ']);
                assert(piece.drop_last().drop_last().drop_last() =~= Seq::<char>::empty());
                assert(Seq::<char>::empty().push('(') =~= opening());
                assert(after.done =~= shut.push(opening()));
                assert(after.word =~= Seq::<char>::empty());
                lemma_expand_push(shut, opening());
                assert(goal);
            }
        } else if t[i] == ')' {
            assert(piece =~= seq![' ', ')', ' ']);
            assert(piece.drop_last() =~= seq![' ', ')']);
            assert(piece.drop_last().drop_last() =~= seq![' ']);
            assert(piece.drop_last().drop_last().drop_last() =~= Seq::<char>::empty());
            assert(Seq::<char>::empty().push(')') =~= closing());
            assert(after.done =~= shut.push(closing()));
            assert(after.word =~= Seq::<char>::empty());
            lemma_expand_push(shut, closing());
            if never_negative(t) {
                assert(depth(t.take(n as int)) >= 0);
            }
            assert(goal);
        } else if t[i] == '\'' && i + 1 < t.len() && t[i + 1] == '(' {
            assert(piece =~= seq![' ', '\'']);
            assert(piece.drop_last() =~= seq![' ']);
            assert(piece.drop_last().drop_last() =~= Seq::<char>::empty());
            assert(after.done =~= shut);
            assert(after.word =~= seq!['\'']);
            assert(goal);
        } else {
            assert(piece =~= seq![t[i]]);
            assert(piece.drop_last() =~= Seq::<char>::empty());
            if is_space(t[i]) {
                assert(after.done =~= shut);
                assert(after.word =~= Seq::<char>::empty());
            } else {
                assert(after.done =~= before.done);
                assert(after.word =~= before.word.push(t[i]));
            }
            assert(goal);
        }
    }
}

/// One more word taken in by the writing out of `'`.
proof fn lemma_expand_push(ws: Seq<Seq<char>>, w: Seq<char>)
    ensures
        expand(ws.push(w)) == expand(ws).step(w),
{
    assert(ws.push(w).drop_last() =~= ws);
}

/// A word without a bracket that ends opens and closes no bracket.
proof fn lemma_expand_plain(done: Seq<Seq<char>>, word: Seq<char>)
    requires
        plain(word),
    ensures
        expand((Split { done, word }).closed()).open == expand(done).open,
{
    if word.len() > 0 {
        lemma_expand_push(done, word);
        assert(word != quoted_opening()) by {
            if word == quoted_opening() {
                assert(is_bracket(word[1]));
            }
        }
        assert(word != opening()) by {
            if word == opening() {
                assert(is_bracket(word[0]));
            }
        }
        assert(word != closing()) by {
            if word == closing() {
                assert(is_bracket(word[0]));
            }
        }
    }
}

/// The words of a padded text are clean.
proof fn lemma_words_clean(t: Seq<char>)
    ensures
        all_clean(words(pad(t))),
{
    lemma_split_padded(t, t.len());
}

/// Clean words give tokens in each of which a bracket stands alone.
proof fn lemma_expand_alone(ws: Seq<Seq<char>>)
    requires
        all_clean(ws),
    ensures
        all_alone(expand(ws).out),
    decreases ws.len(),
{
    if ws.len() > 0 {
        let rest = ws.drop_last();
        let w = ws.last();
        assert(all_clean(rest)) by {
            assert forall|i: int| 0 <= i < rest.len() implies clean(#[trigger] rest[i]) by {
                assert(rest[i] == ws[i]);
            }
        }
        lemma_expand_alone(rest);
        let e = expand(rest);
        assert(clean(w));
        assert(plain(quote_word()));
        if w != quoted_opening() && w != opening() && w != closing() {
            assert(plain(w));
            if w.len() > 0 && w[0] == '\'' {
                assert(plain(w.skip(1))) by {
                    assert forall|j: int| 0 <= j < w.skip(1).len() implies !is_bracket(
                        #[trigger] w.skip(1)[j],
                    ) by {
                        assert(w.skip(1)[j] == w[j + 1]);
                    }
                }
            }
        }
    }
}

/// Among the tokens of a line every bracket stands alone: a token that holds a
/// bracket is `(` or `)`.
pub proof fn law_brackets_stand_alone(cmd: Seq<char>)
    ensures
        all_alone(tokens(cmd)),
{
    lemma_words_clean(trimmed(cmd));
    lemma_expand_alone(words(pad(trimmed(cmd))));
}

/// How many tokens `(` there are more than tokens `)`.
pub open spec fn token_depth(ts: Seq<Seq<char>>) -> int
    decreases ts.len(),
{
    if ts.len() == 0 {
        0
    } else if ts.last() == opening() {
        token_depth(ts.drop_last()) + 1
    } else if ts.last() == closing() {
        token_depth(ts.drop_last()) - 1
    } else {
        token_depth(ts.drop_last())
    }
}

/// No beginning of the tokens has more `)` than `(`.
pub open spec fn tokens_never_negative(ts: Seq<Seq<char>>) -> bool {
    forall|k: int| 0 <= k <= ts.len() ==> token_depth(#[trigger] ts.take(k)) >= 0
}

/// The bracket tokens are balanced: as many `(` as `)`, and at no point more
/// `)` than `(`.
pub open spec fn balanced_tokens(ts: Seq<Seq<char>>) -> bool {
    token_depth(ts) == 0 && tokens_never_negative(ts)
}

/// How many `)` are owed for the brackets that are open: two for one that came
/// with a quote mark, one for any other.
pub open spec fn owed(open: Seq<bool>) -> nat
    decreases open.len(),
{
    if open.len() == 0 {
        0
    } else if open.last() {
        owed(open.drop_last()) + 2
    } else {
        owed(open.drop_last()) + 1
    }
}

proof fn lemma_token_push(ts: Seq<Seq<char>>, w: Seq<char>)
    requires
        tokens_never_negative(ts),
        token_depth(ts.push(w)) >= 0,
    ensures
        tokens_never_negative(ts.push(w)),
        token_depth(ts.push(w)) == token_depth(ts) + (if w == opening() {
            1int
        } else if w == closing() {
            -1int
        } else {
            0int
        }),
{
    let more = ts.push(w);
    assert(more.drop_last() =~= ts);
    assert forall|k: int| 0 <= k <= more.len() implies token_depth(#[trigger] more.take(k))
        >= 0 by {
        if k <= ts.len() {
            assert(more.take(k) =~= ts.take(k));
        } else {
            assert(more.take(k) =~= more);
        }
    }
}

/// The tokens that clean words give never have more `)` than `(`, and have as
/// many `(` more than `)` as are owed for the brackets that are open.
proof fn lemma_expand_depth(ws: Seq<Seq<char>>)
    requires
        all_clean(ws),
    ensures
        tokens_never_negative(expand(ws).out),
        token_depth(expand(ws).out) == owed(expand(ws).open),
    decreases ws.len(),
{
    assert(opening().len() == 1 && opening()[0] == '(');
    assert(closing().len() == 1 && closing()[0] == ')');
    assert(quoted_opening().len() == 2);
    assert(quote_word().len() == 5);
    if ws.len() == 0 {
        assert(tokens_never_negative(expand(ws).out)) by {
            assert forall|k: int| 0 <= k <= expand(ws).out.len() implies token_depth(
                #[trigger] expand(ws).out.take(k),
            ) >= 0 by {
                assert(expand(ws).out.take(k) =~= Seq::<Seq<char>>::empty());
            }
        }
    } else {
        let rest = ws.drop_last();
        let w = ws.last();
        assert(all_clean(rest)) by {
            assert forall|i: int| 0 <= i < rest.len() implies clean(#[trigger] rest[i]) by {
                assert(rest[i] == ws[i]);
            }
        }
        lemma_expand_depth(rest);
        let e = expand(rest);
        let o = e.out;
        assert(clean(w));
        if w == quoted_opening() {
            let o1 = o.push(opening());
            let o2 = o1.push(quote_word());
            let o3 = o2.push(opening());
            assert(o1.drop_last() =~= o);
            assert(o2.drop_last() =~= o1);
            assert(o3.drop_last() =~= o2);
            lemma_token_push(o, opening());
            lemma_token_push(o1, quote_word());
            lemma_token_push(o2, opening());
            assert(o + seq![opening(), quote_word(), opening()] =~= o3);
            assert(e.open.push(true).drop_last() =~= e.open);
        } else if w == opening() {
            let o1 = o.push(opening());
            assert(o1.drop_last() =~= o);
            lemma_token_push(o, opening());
            assert(e.open.push(false).drop_last() =~= e.open);
        } else if w == closing() {
            if e.open.len() > 0 {
                let o1 = o.push(closing());
                assert(o1.drop_last() =~= o);
                lemma_token_push(o, closing());
                if e.open.last() {
                    let o2 = o1.push(closing());
                    assert(o2.drop_last() =~= o1);
                    lemma_token_push(o1, closing());
                    assert(o + seq![closing(), closing()] =~= o2);
                }
            }
        } else {
            assert(plain(w));
            if w.len() > 0 && w[0] == '\'' {
                let x = w.skip(1);
                assert(plain(x)) by {
                    assert forall|j: int| 0 <= j < x.len() implies !is_bracket(#[trigger] x[j]) by {
                        assert(x[j] == w[j + 1]);
                    }
                }
                assert(x != opening()) by {
                    if x == opening() {
                        assert(is_bracket(x[0]));
                    }
                }
                assert(x != closing()) by {
                    if x == closing() {
                        assert(is_bracket(x[0]));
                    }
                }
                let o1 = o.push(opening());
                let o2 = o1.push(quote_word());
                let o3 = o2.push(x);
                let o4 = o3.push(closing());
                assert(o1.drop_last() =~= o);
                assert(o2.drop_last() =~= o1);
                assert(o3.drop_last() =~= o2);
                assert(o4.drop_last() =~= o3);
                lemma_token_push(o, opening());
                lemma_token_push(o1, quote_word());
                lemma_token_push(o2, x);
                lemma_token_push(o3, closing());
                assert(o + seq![opening(), quote_word(), x, closing()] =~= o4);
            } else {
                let o1 = o.push(w);
                assert(o1.drop_last() =~= o);
                lemma_token_push(o, w);
            }
        }
    }
}

proof fn lemma_depth_concat(a: Seq<char>, b: Seq<char>)
    ensures
        depth(a + b) == depth(a) + depth(b),
    decreases b.len(),
{
    if b.len() == 0 {
        assert(a + b =~= a);
    } else {
        lemma_depth_concat(a, b.drop_last());
        assert((a + b).drop_last() =~= a + b.drop_last());
    }
}

proof fn lemma_depth_of_blanks(s: Seq<char>)
    requires
        forall|j: int| 0 <= j < s.len() ==> is_blank(#[trigger] s[j]),
    ensures
        depth(s) == 0,
    decreases s.len(),
{
    if s.len() > 0 {
        lemma_depth_of_blanks(s.drop_last());
    }
}

/// How many characters of white space a text begins with.
pub open spec fn lead(s: Seq<char>) -> nat
    decreases s.len(),
{
    if s.len() > 0 && is_blank(s[0]) {
        lead(s.drop_first()) + 1
    } else {
        0
    }
}

proof fn lemma_lead(s: Seq<char>)
    ensures
        lead(s) <= s.len(),
        trim_start(s) == s.skip(lead(s) as int),
        forall|j: int| 0 <= j < lead(s) ==> is_blank(#[trigger] s[j]),
    decreases s.len(),
{
    if s.len() > 0 && is_blank(s[0]) {
        let rest = s.drop_first();
        lemma_lead(rest);
        assert(rest.skip(lead(rest) as int) =~= s.skip(lead(s) as int));
        assert forall|j: int| 0 <= j < lead(s) implies is_blank(#[trigger] s[j]) by {
            if j > 0 {
                assert(rest[j - 1] == s[j]);
            }
        }
    } else {
        assert(s.skip(0) =~= s);
    }
}

proof fn lemma_trim_end_is_a_beginning(s: Seq<char>)
    ensures
        trim_end(s).len() <= s.len(),
        trim_end(s) == s.take(trim_end(s).len() as int),
        depth(trim_end(s)) == depth(s),
    decreases s.len(),
{
    if s.len() > 0 && is_blank(s.last()) {
        let rest = s.drop_last();
        lemma_trim_end_is_a_beginning(rest);
        assert(rest.take(trim_end(rest).len() as int) =~= s.take(trim_end(s).len() as int));
    } else {
        assert(s.take(s.len() as int) =~= s);
    }
}

/// A text whose brackets are balanced has balanced brackets when the white
/// space at its ends is dropped.
proof fn lemma_trimmed_balanced(s: Seq<char>)
    requires
        balanced(s),
    ensures
        balanced(trimmed(s)),
{
    lemma_lead(s);
    let m = lead(s) as int;
    let mid = trim_start(s);
    lemma_depth_of_blanks(s.take(m));
    assert forall|k: int| 0 <= k <= mid.len() implies depth(#[trigger] mid.take(k)) >= 0 by {
        lemma_depth_concat(s.take(m), mid.take(k));
        assert(s.take(m) + mid.take(k) =~= s.take(m + k));
        assert(depth(s.take(m + k)) >= 0);
    }
    lemma_depth_concat(s.take(m), mid);
    assert(s.take(m) + mid =~= s);
    lemma_trim_end_is_a_beginning(mid);
    let t = trim_end(mid);
    assert forall|k: int| 0 <= k <= t.len() implies depth(#[trigger] t.take(k)) >= 0 by {
        assert(t.take(k) =~= mid.take(k));
    }
}

/// Where the brackets of a line are balanced, so are its bracket tokens: `(`
/// and `)` come in pairs, each `)` after its `(`. A `(` with a quote mark before
/// it gives two `(`, and the `)` that closes it two `)`.
pub proof fn law_balanced_brackets_stay_balanced(cmd: Seq<char>)
    requires
        balanced(cmd),
    ensures
        balanced_tokens(tokens(cmd)),
{
    let t = trimmed(cmd);
    lemma_trimmed_balanced(cmd);
    lemma_split_padded(t, t.len());
    let last = scan(pad(t));
    assert(t.take(t.len() as int) =~= t);
    lemma_expand_plain(last.done, last.word);
    lemma_words_clean(t);
    lemma_expand_depth(words(pad(t)));
    let e = expand(words(pad(t)));
    assert(e.open.len() == 0);
}

} // verus!
