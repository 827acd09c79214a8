//! The meaning of a scan, as spec functions over the characters of the source.
use vstd::prelude::*;
use crate::token::{Kind, TokenView, tv};

verus! {

pub open spec fn is_digit(c: char) -> bool {
    '0' <= c && c <= '9'
}

/// Space, carriage return and tab: skipped without a token.
pub open spec fn is_blank(c: char) -> bool {
    c == ' ' || c == '\r' || c == '\t'
}

/// The kind of the token that a character makes on its own, if it is one of those.
pub open spec fn single_kind(c: char) -> Option<Kind> {
    if c == '(' {
        Some(Kind::LeftParen)
    } else if c == ')' {
        Some(Kind::RightParen)
    } else if c == '{' {
        Some(Kind::LeftBrace)
    } else if c == '}' {
        Some(Kind::RightBrace)
    } else if c == ',' {
        Some(Kind::Comma)
    } else if c == '.' {
        Some(Kind::Dot)
    } else if c == '-' {
        Some(Kind::Minus)
    } else if c == '+' {
        Some(Kind::Plus)
    } else if c == ';' {
        Some(Kind::Semicolon)
    } else if c == '*' {
        Some(Kind::Asterisk)
    } else {
        None
    }
}

/// `!`, `=`, `<` and `>`: each makes a token alone, and another one when `=` follows.
pub open spec fn is_comparison_start(c: char) -> bool {
    c == '!' || c == '=' || c == '<' || c == '>'
}

pub open spec fn comparison_kind(c: char, with_equal: bool) -> Kind {
    if c == '!' {
        if with_equal { Kind::BangEqual } else { Kind::Bang }
    } else if c == '=' {
        if with_equal { Kind::EqualEqual } else { Kind::Equal }
    } else if c == '<' {
        if with_equal { Kind::LessEqual } else { Kind::Less }
    } else {
        if with_equal { Kind::GreaterEqual } else { Kind::Greater }
    }
}

/// A character that starts no token and is no blank: it makes an `Invalid` token.
pub open spec fn is_unrecognized(c: char) -> bool {
    &&& single_kind(c) is None
    &&& c != '/'
    &&& !is_comparison_start(c)
    &&& c != '"'
    &&& !is_digit(c)
    &&& !is_blank(c)
    &&& c != '\n'
}

/// Whether position `k` of `s` holds `c`.
pub open spec fn holds_at(s: Seq<char>, k: nat, c: char) -> bool {
    k < s.len() && s[k as int] == c
}

/// The first position at or after `i` that holds a newline, or the length of `s`.
pub open spec fn comment_end(s: Seq<char>, i: nat) -> nat
    decreases s.len() - i,
{
    if i >= s.len() || s[i as int] == '\n' {
        i
    } else {
        comment_end(s, i + 1)
    }
}

/// The first position at or after `i` that holds a double quote, or the length of `s`.
pub open spec fn string_end(s: Seq<char>, i: nat) -> nat
    decreases s.len() - i,
{
    if i >= s.len() || s[i as int] == '"' {
        i
    } else {
        string_end(s, i + 1)
    }
}

/// The end of the run of decimal digits that starts at `i`.
pub open spec fn digits_end(s: Seq<char>, i: nat) -> nat
    decreases s.len() - i,
{
    if i < s.len() && is_digit(s[i as int]) {
        digits_end(s, i + 1)
    } else {
        i
    }
}

/// The end of the number that starts at `i`: a run of digits, then a dot and a
/// second run of digits where a digit follows the dot.
pub open spec fn number_end(s: Seq<char>, i: nat) -> nat {
    let j = digits_end(s, i);
    if holds_at(s, j, '.') && j + 1 < s.len() && is_digit(s[j + 1 as int]) {
        digits_end(s, j + 1)
    } else {
        j
    }
}

/// How many newlines `t` holds.
pub open spec fn newlines(t: Seq<char>) -> nat
    decreases t.len(),
{
    if t.len() == 0 {
        0
    } else {
        newlines(t.drop_last()) + if t.last() == '\n' { 1nat } else { 0nat }
    }
}

pub open spec fn digit_char(d: nat) -> char {
    if d == 0 {
        '0'
    } else if d == 1 {
        '1'
    } else if d == 2 {
        '2'
    } else if d == 3 {
        '3'
    } else if d == 4 {
        '4'
    } else if d == 5 {
        '5'
    } else if d == 6 {
        '6'
    } else if d == 7 {
        '7'
    } else if d == 8 {
        '8'
    } else {
        '9'
    }
}

/// `n` written in decimal, without leading zeros.
pub open spec fn decimal(n: nat) -> Seq<char>
    decreases n,
{
    if n < 10 {
        seq![digit_char(n)]
    } else {
        decimal(n / 10).push(digit_char(n % 10))
    }
}

/// The message of the `Invalid` token for character `c` on line `line`.
pub open spec fn invalid_message(c: char, line: nat) -> Seq<char> {
    "Unexpected character "@ + seq![c] + " line "@ + decimal(line)
}

/// The tokens of `s` from position `i` on, where position `i` is on line `line`.
pub open spec fn scan_from(s: Seq<char>, i: nat, line: nat) -> Seq<TokenView>
    decreases s.len() - i,
    via scan_from_decreases
{
    if i >= s.len() {
        seq![]
    } else {
        let c = s[i as int];
        if single_kind(c) is Some {
            seq![tv(single_kind(c)->0, line)] + scan_from(s, i + 1, line)
        } else if c == '/' {
            if holds_at(s, i + 1, '/') {
                scan_from(s, comment_end(s, i + 2), line)
            } else {
                seq![tv(Kind::Slash, line)] + scan_from(s, i + 1, line)
            }
        } else if is_comparison_start(c) {
            if holds_at(s, i + 1, '=') {
                seq![tv(comparison_kind(c, true), line)] + scan_from(s, i + 2, line)
            } else {
                seq![tv(comparison_kind(c, false), line)] + scan_from(s, i + 1, line)
            }
        } else if c == '"' {
            let e = string_end(s, i + 1);
            let literal = s.subrange(i + 1 as int, e as int);
            let next = if e < s.len() { e + 1 } else { e };
            seq![tv(Kind::Str(literal), line)] + scan_from(s, next, line + newlines(literal))
        } else if is_digit(c) {
            let e = number_end(s, i);
            seq![tv(Kind::Number(s.subrange(i as int, e as int)), line)] + scan_from(s, e, line)
        } else if is_blank(c) {
            scan_from(s, i + 1, line)
        } else if c == '\n' {
            scan_from(s, i + 1, line + 1)
        } else {
            seq![tv(Kind::Invalid(invalid_message(c, line)), line)] + scan_from(s, i + 1, line)
        }
    }
}

#[via_fn]
proof fn scan_from_decreases(s: Seq<char>, i: nat, line: nat) {
    if i < s.len() {
        if holds_at(s, i + 1, '/') {
            lemma_comment_end_bounds(s, i + 2);
        }
        lemma_string_end_bounds(s, i + 1);
        if is_digit(s[i as int]) {
            lemma_number_end_bounds(s, i);
        }
    }
}

/// The tokens of the whole of `s`, which starts on line 0.
pub open spec fn scan(s: Seq<char>) -> Seq<TokenView> {
    scan_from(s, 0, 0)
}

pub proof fn lemma_comment_end_bounds(s: Seq<char>, i: nat)
    requires
        i <= s.len(),
    ensures
        i <= comment_end(s, i) <= s.len(),
    decreases s.len() - i,
{
    if i < s.len() && s[i as int] != '\n' {
        lemma_comment_end_bounds(s, i + 1);
    }
}

pub proof fn lemma_string_end_bounds(s: Seq<char>, i: nat)
    requires
        i <= s.len(),
    ensures
        i <= string_end(s, i) <= s.len(),
    decreases s.len() - i,
{
    if i < s.len() && s[i as int] != '"' {
        lemma_string_end_bounds(s, i + 1);
    }
}

pub proof fn lemma_digits_end_bounds(s: Seq<char>, i: nat)
    requires
        i <= s.len(),
    ensures
        i <= digits_end(s, i) <= s.len(),
    decreases s.len() - i,
{
    if i < s.len() && is_digit(s[i as int]) {
        lemma_digits_end_bounds(s, i + 1);
    }
}

pub proof fn lemma_number_end_bounds(s: Seq<char>, i: nat)
    requires
        i < s.len(),
        is_digit(s[i as int]),
    ensures
        i < number_end(s, i) <= s.len(),
{
    lemma_digits_end_bounds(s, i + 1);
    let j = digits_end(s, i);
    if holds_at(s, j, '.') && j + 1 < s.len() && is_digit(s[j + 1 as int]) {
        lemma_digits_end_bounds(s, j + 1);
    }
}

/// A text holds no more newlines than characters.
pub proof fn lemma_newlines_bound(t: Seq<char>)
    ensures
        newlines(t) <= t.len(),
    decreases t.len(),
{
    if t.len() > 0 {
        lemma_newlines_bound(t.drop_last());
    }
}

} // verus!
