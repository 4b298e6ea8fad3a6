//! Telling numerals from names, and reading integers.

use vstd::prelude::*;
use regex::Regex;
use crate::text::chars_of;
use crate::unit::{is_digit, is_digits, real_shaped};

verus! {

/// What `Regex::is_match` of the `regex` crate returns for the regular
/// expression compiled from `pattern` and the haystack `text`.
pub uninterp spec fn regex_is_match(pattern: Seq<char>, text: Seq<char>) -> bool;

/// The pattern of an integer: an optional `-`, then digits to the end.
pub open spec fn integer_pattern() -> Seq<char> {
    "^-?\\d+$"@
}

/// The pattern of a numeral with an optional sign and an optional point.
pub open spec fn real_pattern() -> Seq<char> {
    "^[-+]?[0-9]*\\.?[0-9]+$"@
}

/// Every character is one of ASCII.
pub open spec fn is_ascii_text(s: Seq<char>) -> bool {
    forall|i: int| 0 <= i < s.len() ==> (#[trigger] s[i]) <= '\x7f'
}

/// An optional `-`, then one or more digits.
pub open spec fn integer_shaped(s: Seq<char>) -> bool {
    if s.len() > 0 && s[0] == '-' {
        is_digits(s.skip(1))
    } else {
        is_digits(s)
    }
}

/// `Regex::new(pattern).unwrap().is_match(text)` of the `regex` crate, for the
/// two patterns of this module, both of which compile.
///
/// Claims that the result is that of matching the pattern against the whole
/// text; that the integer pattern matches a text of ASCII characters if and
/// only if the text is an optional `-` followed by one or more of the digits
/// `0` to `9` (`\d` also matches digits outside ASCII, of which nothing is
/// claimed); and that the other pattern matches a text if and only if it is an
/// optional sign, digits `0` to `9` with at most one `.` among them, and a
/// digit at the end.
#[verifier::external_body]
fn pattern_matches(pattern: &str, text: &str) -> (b: bool)
    requires
        pattern@ == integer_pattern() || pattern@ == real_pattern(),
    ensures
        b == regex_is_match(pattern@, text@),
        pattern@ == integer_pattern() && is_ascii_text(text@) ==> b == integer_shaped(text@),
        pattern@ == real_pattern() ==> b == real_shaped(text@),
{
    Regex::new(pattern).unwrap().is_match(text)
}

/// The kind of a token, by the patterns: 1 for an integer, 2 for another
/// numeral, 0 for anything else.
pub open spec fn number_kind(s: Seq<char>) -> i32 {
    if regex_is_match(integer_pattern(), s) {
        1
    } else if regex_is_match(real_pattern(), s) {
        2
    } else {
        0
    }
}

/// The kind of a token of ASCII characters, by its shape.
pub open spec fn ascii_kind(s: Seq<char>) -> i32 {
    if integer_shaped(s) {
        1
    } else if real_shaped(s) {
        2
    } else {
        0
    }
}

/// The kind of a token: by its shape if all its characters are of ASCII, and
/// else by the patterns.
pub open spec fn kind_of(s: Seq<char>) -> i32 {
    if is_ascii_text(s) {
        ascii_kind(s)
    } else {
        number_kind(s)
    }
}

/// Tells what a token is: 1 for an integer, 2 for another numeral, 0 for
/// anything else.
pub fn is_number(s: &String) -> (r: i32)
    ensures
        r == kind_of(s@),
        r == number_kind(s@),
        r == 2 ==> real_shaped(s@),
{
    if pattern_matches("^-?\\d+$", s.as_str()) {
        1
    } else if pattern_matches("^[-+]?[0-9]*\\.?[0-9]+$", s.as_str()) {
        2
    } else {
        0
    }
}

/// The number that digits denote.
pub open spec fn digits_value(s: Seq<char>) -> nat
    decreases s.len(),
{
    if s.len() == 0 {
        0
    } else {
        digits_value(s.drop_last()) * 10 + (s.last() as nat - '0' as nat) as nat
    }
}

/// The number that an integer numeral denotes.
pub open spec fn numeral_value(s: Seq<char>) -> int {
    if s.len() > 0 && s[0] == '-' {
        -(digits_value(s.skip(1)) as int)
    } else {
        digits_value(s) as int
    }
}

/// The integer that a token denotes, if it has the shape of an integer and the
/// integer can be held.
pub open spec fn integer_value(s: Seq<char>) -> Option<i64> {
    if integer_shaped(s) && i64::MIN <= numeral_value(s) <= i64::MAX {
        Some(numeral_value(s) as i64)
    } else {
        None
    }
}

proof fn lemma_digits_grow(s: Seq<char>, k: int)
    requires
        0 <= k <= s.len(),
    ensures
        digits_value(s.take(k)) <= digits_value(s),
    decreases s.len() - k,
{
    if k < s.len() {
        lemma_digits_grow(s.drop_last(), k);
        assert(s.drop_last().take(k) =~= s.take(k));
    } else {
        assert(s.take(k) =~= s);
    }
}

/// Reads an integer numeral.
pub fn parse_integer(text: &str) -> (r: Option<i64>)
    ensures
        r == integer_value(text@),
{
    let chars = chars_of(text);
    let negative = chars.len() > 0 && chars[0] == '-';
    let start: usize = if negative { 1 } else { 0 };
    if start >= chars.len() {
        return None;
    }
    let ghost digits = chars@.skip(start as int);
    let mut magnitude: u64 = 0;
    let mut i: usize = start;
    while i < chars.len()
        invariant
            start <= i <= chars.len(),
            start < chars.len(),
            chars@ == text@,
            negative == (chars.len() > 0 && chars[0] == '-'),
            start == (if negative { 1usize } else { 0usize }),
            digits == chars@.skip(start as int),
            forall|j: int| 0 <= j < i - start ==> is_digit(#[trigger] digits[j]),
            magnitude == digits_value(digits.take(i - start)),
            magnitude <= 0x8000_0000_0000_0000,
        decreases chars.len() - i,
    {
        let c = chars[i];
        if c < '0' || c > '9' {
            return None;
        }
        let d: u64 = (c as u64) - ('0' as u64);
        proof {
            assert(digits.take(i - start + 1).drop_last() =~= digits.take(i - start));
            lemma_digits_grow(digits, i - start + 1);
        }
        if magnitude > (0x8000_0000_0000_0000 - d) / 10 {
            assert(chars@.skip(0) =~= chars@);
            return None;
        }
        magnitude = magnitude * 10 + d;
        i = i + 1;
    }
    proof {
        assert(digits.take(chars.len() - start) =~= digits);
        assert(chars@.skip(0) =~= chars@);
    }
    if negative {
        if magnitude == 0x8000_0000_0000_0000 {
            Some(i64::MIN)
        } else {
            Some(-(magnitude as i64))
        }
    } else if magnitude == 0x8000_0000_0000_0000 {
        None
    } else {
        Some(magnitude as i64)
    }
}

} // verus!
