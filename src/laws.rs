//! Properties of a scan that hold of every input.
use vstd::prelude::*;
use crate::lexicon::{
    comment_end, comparison_kind, decimal, digits_end, holds_at, invalid_message,
    is_comparison_start, is_digit, is_unrecognized, lemma_comment_end_bounds,
    lemma_number_end_bounds, lemma_string_end_bounds, number_end, scan, scan_from, single_kind,
    string_end,
};
use crate::scanner::Scanner;
use crate::token::{Kind, TokenView, tv};

verus! {

/// A character that makes a token on its own, scanned alone, gives exactly that
/// token, on line 0.
pub proof fn lemma_single_character(c: char)
    requires
        single_kind(c) is Some,
    ensures
        scan(seq![c]) == seq![tv(single_kind(c)->0, 0)],
{
    let s = seq![c];
    assert(scan_from(s, 1, 0) =~= Seq::empty());
    assert(scan(s) =~= seq![tv(single_kind(c)->0, 0)]);
}

/// A slash that no second slash follows is the divide operator.
pub proof fn lemma_lone_slash()
    ensures
        scan(seq!['/']) == seq![tv(Kind::Slash, 0)],
{
    let s = seq!['/'];
    assert(scan_from(s, 1, 0) =~= Seq::empty());
    assert(scan(s) =~= seq![tv(Kind::Slash, 0)]);
}

/// `!`, `=`, `<` and `>` followed by `=` give one two-character token; alone, or
/// followed by any other character, they give their one-character token.
pub proof fn lemma_comparison(c: char, d: char)
    requires
        is_comparison_start(c),
    ensures
        scan(seq![c, '=']) == seq![tv(comparison_kind(c, true), 0)],
        scan(seq![c]) == seq![tv(comparison_kind(c, false), 0)],
        d != '=' ==> scan(seq![c, d]).len() >= 1 && scan(seq![c, d])[0] == tv(
            comparison_kind(c, false),
            0,
        ),
{
    let two = seq![c, '='];
    assert(scan_from(two, 2, 0) =~= Seq::empty());
    assert(scan(two) =~= seq![tv(comparison_kind(c, true), 0)]);
    let one = seq![c];
    assert(scan_from(one, 1, 0) =~= Seq::empty());
    assert(scan(one) =~= seq![tv(comparison_kind(c, false), 0)]);
    if d != '=' {
        let s = seq![c, d];
        assert(scan(s) == seq![tv(comparison_kind(c, false), 0)] + scan_from(s, 1, 0));
    }
}

/// A character that starts no token, scanned alone, gives one `Invalid` token on
/// line 0, whose message names the character and the line.
pub proof fn lemma_unrecognized_character(c: char)
    requires
        is_unrecognized(c),
    ensures
        scan(seq![c]) == seq![tv(Kind::Invalid(invalid_message(c, 0)), 0)],
        invalid_message(c, 0) == "Unexpected character "@ + seq![c] + " line 0"@,
{
    let s = seq![c];
    assert(scan_from(s, 1, 0) =~= Seq::empty());
    assert(scan(s) =~= seq![tv(Kind::Invalid(invalid_message(c, 0)), 0)]);
    reveal_strlit(" line ");
    reveal_strlit(" line 0");
    assert(decimal(0) == seq!['0']);
    assert(" line "@ + decimal(0) =~= " line 0"@);
    assert(invalid_message(c, 0) =~= "Unexpected character "@ + seq![c] + " line 0"@);
}

/// Scanning is a function of the source text alone: two scanners that hold the
/// same text give the same tokens.
pub proof fn lemma_scan_deterministic(a: &Scanner, b: &Scanner)
    requires
        a@ == b@,
    ensures
        scan(a@) == scan(b@),
{
}

/// `a` and `b` hold tokens one for one, each of `a` on a line `k` greater.
pub open spec fn lines_shifted(a: Seq<TokenView>, b: Seq<TokenView>, k: nat) -> bool {
    &&& a.len() == b.len()
    &&& forall|j: int| 0 <= j < a.len() ==> #[trigger] a[j].line == b[j].line + k
}

/// `n` newlines.
pub open spec fn newline_run(n: nat) -> Seq<char> {
    Seq::new(n, |j: int| '\n')
}

proof fn lemma_lines_shifted_concat(
    a1: Seq<TokenView>,
    a2: Seq<TokenView>,
    b1: Seq<TokenView>,
    b2: Seq<TokenView>,
    k: nat,
)
    requires
        lines_shifted(a1, b1, k),
        lines_shifted(a2, b2, k),
    ensures
        lines_shifted(a1 + a2, b1 + b2, k),
{
    assert forall|j: int| 0 <= j < (a1 + a2).len() implies #[trigger] (a1 + a2)[j].line == (b1
        + b2)[j].line + k by {
        if j < a1.len() {
            assert(a1[j].line == b1[j].line + k);
        } else {
            assert(a2[j - a1.len()].line == b2[j - a1.len()].line + k);
        }
    }
}

proof fn lemma_comment_end_shift(p: Seq<char>, s: Seq<char>, i: nat)
    requires
        i <= s.len(),
    ensures
        comment_end(p + s, i + p.len()) == comment_end(s, i) + p.len(),
    decreases s.len() - i,
{
    if i < s.len() {
        assert((p + s)[(i + p.len()) as int] == s[i as int]);
        if s[i as int] != '\n' {
            lemma_comment_end_shift(p, s, i + 1);
        }
    }
}

proof fn lemma_string_end_shift(p: Seq<char>, s: Seq<char>, i: nat)
    requires
        i <= s.len(),
    ensures
        string_end(p + s, i + p.len()) == string_end(s, i) + p.len(),
    decreases s.len() - i,
{
    if i < s.len() {
        assert((p + s)[(i + p.len()) as int] == s[i as int]);
        if s[i as int] != '"' {
            lemma_string_end_shift(p, s, i + 1);
        }
    }
}

proof fn lemma_digits_end_shift(p: Seq<char>, s: Seq<char>, i: nat)
    requires
        i <= s.len(),
    ensures
        digits_end(p + s, i + p.len()) == digits_end(s, i) + p.len(),
    decreases s.len() - i,
{
    if i < s.len() {
        assert((p + s)[(i + p.len()) as int] == s[i as int]);
        if is_digit(s[i as int]) {
            lemma_digits_end_shift(p, s, i + 1);
        }
    }
}

proof fn lemma_number_end_shift(p: Seq<char>, s: Seq<char>, i: nat)
    requires
        i < s.len(),
        is_digit(s[i as int]),
    ensures
        number_end(p + s, i + p.len()) == number_end(s, i) + p.len(),
{
    lemma_digits_end_shift(p, s, i);
    crate::lexicon::lemma_digits_end_bounds(s, i);
    let j = digits_end(s, i);
    if j + 1 < s.len() {
        assert((p + s)[(j + p.len()) as int] == s[j as int]);
        assert((p + s)[(j + 1 + p.len()) as int] == s[(j + 1) as int]);
        lemma_digits_end_shift(p, s, j + 1);
    }
    if j < s.len() {
        assert((p + s)[(j + p.len()) as int] == s[j as int]);
    }
}

/// Scanning `s` behind a prefix `p`, from the same point of `s` and `k` lines
/// further down, gives the same tokens with lines greater by `k`.
proof fn lemma_scan_from_shift(p: Seq<char>, s: Seq<char>, i: nat, line: nat, k: nat)
    requires
        i <= s.len(),
    ensures
        lines_shifted(scan_from(p + s, i + p.len(), line + k), scan_from(s, i, line), k),
    decreases s.len() - i,
{
    let t = p + s;
    let q = p.len();
    if i < s.len() {
        let c = s[i as int];
        assert(t[(i + q) as int] == c);
        if i + 1 < s.len() {
            assert(t[(i + 1 + q) as int] == s[(i + 1) as int]);
        }
        assert(holds_at(t, i + 1 + q, '/') == holds_at(s, i + 1, '/'));
        assert(holds_at(t, i + 1 + q, '=') == holds_at(s, i + 1, '='));
        if single_kind(c) is Some {
            lemma_scan_from_shift(p, s, i + 1, line, k);
            lemma_lines_shifted_concat(
                seq![tv(single_kind(c)->0, line + k)],
                scan_from(t, i + 1 + q, line + k),
                seq![tv(single_kind(c)->0, line)],
                scan_from(s, i + 1, line),
                k,
            );
        } else if c == '/' {
            if holds_at(s, i + 1, '/') {
                lemma_comment_end_bounds(s, i + 2);
                lemma_comment_end_shift(p, s, i + 2);
                lemma_scan_from_shift(p, s, comment_end(s, i + 2), line, k);
            } else {
                lemma_scan_from_shift(p, s, i + 1, line, k);
                lemma_lines_shifted_concat(
                    seq![tv(Kind::Slash, line + k)],
                    scan_from(t, i + 1 + q, line + k),
                    seq![tv(Kind::Slash, line)],
                    scan_from(s, i + 1, line),
                    k,
                );
            }
        } else if is_comparison_start(c) {
            if holds_at(s, i + 1, '=') {
                lemma_scan_from_shift(p, s, i + 2, line, k);
                lemma_lines_shifted_concat(
                    seq![tv(comparison_kind(c, true), line + k)],
                    scan_from(t, i + 2 + q, line + k),
                    seq![tv(comparison_kind(c, true), line)],
                    scan_from(s, i + 2, line),
                    k,
                );
            } else {
                lemma_scan_from_shift(p, s, i + 1, line, k);
                lemma_lines_shifted_concat(
                    seq![tv(comparison_kind(c, false), line + k)],
                    scan_from(t, i + 1 + q, line + k),
                    seq![tv(comparison_kind(c, false), line)],
                    scan_from(s, i + 1, line),
                    k,
                );
            }
        } else if c == '"' {
            lemma_string_end_bounds(s, i + 1);
            lemma_string_end_shift(p, s, i + 1);
            let e = string_end(s, i + 1);
            let literal = s.subrange(i + 1 as int, e as int);
            assert(t.subrange((i + 1 + q) as int, (e + q) as int) =~= literal);
            let next = if e < s.len() { e + 1 } else { e };
            let lines = crate::lexicon::newlines(literal);
            lemma_scan_from_shift(p, s, next, line + lines, k);
            assert(line + k + lines == line + lines + k);
            lemma_lines_shifted_concat(
                seq![tv(Kind::Str(literal), line + k)],
                scan_from(t, next + q, line + lines + k),
                seq![tv(Kind::Str(literal), line)],
                scan_from(s, next, line + lines),
                k,
            );
        } else if is_digit(c) {
            lemma_number_end_bounds(s, i);
            lemma_number_end_shift(p, s, i);
            let e = number_end(s, i);
            let literal = s.subrange(i as int, e as int);
            assert(t.subrange((i + q) as int, (e + q) as int) =~= literal);
            lemma_scan_from_shift(p, s, e, line, k);
            lemma_lines_shifted_concat(
                seq![tv(Kind::Number(literal), line + k)],
                scan_from(t, e + q, line + k),
                seq![tv(Kind::Number(literal), line)],
                scan_from(s, e, line),
                k,
            );
        } else if crate::lexicon::is_blank(c) {
            lemma_scan_from_shift(p, s, i + 1, line, k);
        } else if c == '\n' {
            lemma_scan_from_shift(p, s, i + 1, line + 1, k);
            assert(line + k + 1 == line + 1 + k);
        } else {
            lemma_scan_from_shift(p, s, i + 1, line, k);
            lemma_lines_shifted_concat(
                seq![tv(Kind::Invalid(invalid_message(c, line + k)), line + k)],
                scan_from(t, i + 1 + q, line + k),
                seq![tv(Kind::Invalid(invalid_message(c, line)), line)],
                scan_from(s, i + 1, line),
                k,
            );
        }
    } else {
        assert(scan_from(t, i + q, line + k) =~= Seq::empty());
    }
}

/// Leading newlines are skipped, each adding one to the line.
proof fn lemma_skip_newlines(s: Seq<char>, n: nat, m: nat)
    requires
        m <= n,
    ensures
        scan_from(newline_run(n) + s, 0, 0) == scan_from(newline_run(n) + s, m, m),
    decreases m,
{
    if m > 0 {
        lemma_skip_newlines(s, n, (m - 1) as nat);
        let t = newline_run(n) + s;
        assert(t[(m - 1) as int] == '\n');
    }
}

/// Each newline raises by one the line of every token after it: `n` newlines put
/// before any text give the tokens of that text, each `n` lines further down.
pub proof fn lemma_newlines_shift_lines(s: Seq<char>, n: nat)
    ensures
        lines_shifted(scan(newline_run(n) + s), scan(s), n),
{
    lemma_skip_newlines(s, n, n);
    lemma_scan_from_shift(newline_run(n), s, 0, 0, n);
}

} // verus!
