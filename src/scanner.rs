use vstd::prelude::*;
use crate::lexicon::{
    comment_end, comparison_kind, digits_end, holds_at, is_comparison_start, is_digit,
    lemma_comment_end_bounds, lemma_digits_end_bounds, lemma_number_end_bounds,
    lemma_string_end_bounds, newlines, number_end, scan, scan_from, single_kind, string_end,
};
use crate::text::{chars_of, push_char, unexpected_character_message};
use crate::token::{Token, TokenView, tv};

verus! {

/// The tokens that an optional token stands for: none or one.
pub open spec fn opt_view(t: Option<Token>) -> Seq<TokenView> {
    match t {
        Some(t) => seq![t@],
        None => seq![],
    }
}

/// Owns the text of a script and turns it into tokens.
pub struct Scanner {
    source: String,
}

impl View for Scanner {
    type V = Seq<char>;

    closed spec fn view(&self) -> Seq<char> {
        self.source@
    }
}

fn single_token(c: char, line: usize) -> (r: Option<Token>)
    ensures
        match single_kind(c) {
            Some(k) => r is Some && r->0@ == tv(k, line as nat),
            None => r is None,
        },
{
    match c {
        '(' => Some(Token::LeftParen { line }),
        ')' => Some(Token::RightParen { line }),
        '{' => Some(Token::LeftBrace { line }),
        '}' => Some(Token::RightBrace { line }),
        ',' => Some(Token::Comma { line }),
        '.' => Some(Token::Dot { line }),
        '-' => Some(Token::Minus { line }),
        '+' => Some(Token::Plus { line }),
        ';' => Some(Token::Semicolon { line }),
        '*' => Some(Token::Asterisk { line }),
        _ => None,
    }
}

fn comparison_token(c: char, with_equal: bool, line: usize) -> (t: Token)
    requires
        is_comparison_start(c),
    ensures
        t@ == tv(comparison_kind(c, with_equal), line as nat),
{
    if c == '!' {
        if with_equal { Token::BangEqual { line } } else { Token::Bang { line } }
    } else if c == '=' {
        if with_equal { Token::EqualEqual { line } } else { Token::Equal { line } }
    } else if c == '<' {
        if with_equal { Token::LessEqual { line } } else { Token::Less { line } }
    } else {
        if with_equal { Token::GreaterEqual { line } } else { Token::Greater { line } }
    }
}

fn is_digit_char(c: char) -> (b: bool)
    ensures
        b == is_digit(c),
{
    '0' <= c && c <= '9'
}

/// Whether position `k` of `src` holds `c`.
fn next_is(src: &Vec<char>, k: usize, c: char) -> (b: bool)
    ensures
        b == holds_at(src@, k as nat, c),
{
    k < src.len() && src[k] == c
}

/// The position that ends a comment starting at `start`: the next newline, or the end.
fn skip_comment(src: &Vec<char>, start: usize) -> (e: usize)
    requires
        start <= src.len(),
    ensures
        e == comment_end(src@, start as nat),
{
    let mut j = start;
    while j < src.len() && src[j] != '\n'
        invariant
            start <= j <= src.len(),
            comment_end(src@, j as nat) == comment_end(src@, start as nat),
        decreases src.len() - j,
    {
        j = j + 1;
    }
    j
}

/// Reads a string literal whose text starts at `start`: its text, where it ends,
/// and how many newlines it holds.
fn read_string(src: &Vec<char>, start: usize) -> (r: (String, usize, usize))
    requires
        start <= src.len(),
    ensures
        r.1 == string_end(src@, start as nat),
        r.0@ == src@.subrange(start as int, r.1 as int),
        r.2 == newlines(r.0@),
        start <= r.1 <= src.len(),
        r.2 <= r.1 - start,
{
    let mut literal = String::new();
    let mut lines: usize = 0;
    let mut j = start;
    while j < src.len() && src[j] != '"'
        invariant
            start <= j <= src.len(),
            string_end(src@, j as nat) == string_end(src@, start as nat),
            literal@ == src@.subrange(start as int, j as int),
            lines == newlines(literal@),
            lines <= j - start,
        decreases src.len() - j,
    {
        let c = src[j];
        proof {
            assert(literal@.push(c).drop_last() == literal@);
        }
        push_char(&mut literal, c);
        if c == '\n' {
            lines = lines + 1;
        }
        j = j + 1;
        assert(literal@ == src@.subrange(start as int, j as int));
    }
    (literal, j, lines)
}

/// Appends the run of digits at `start` to `literal`, and returns where it ends.
fn read_digits(src: &Vec<char>, start: usize, literal: &mut String) -> (e: usize)
    requires
        start <= src.len(),
    ensures
        e == digits_end(src@, start as nat),
        final(literal)@ == old(literal)@ + src@.subrange(start as int, e as int),
{
    let mut j = start;
    while j < src.len() && is_digit_char(src[j])
        invariant
            start <= j <= src.len(),
            digits_end(src@, j as nat) == digits_end(src@, start as nat),
            literal@ == old(literal)@ + src@.subrange(start as int, j as int),
        decreases src.len() - j,
    {
        push_char(literal, src[j]);
        j = j + 1;
        assert(literal@ == old(literal)@ + src@.subrange(start as int, j as int));
    }
    j
}

/// Reads the number that starts at `start`: its text and where it ends.
fn read_number(src: &Vec<char>, start: usize) -> (r: (String, usize))
    requires
        start < src.len(),
        is_digit(src@[start as int]),
    ensures
        r.1 == number_end(src@, start as nat),
        r.0@ == src@.subrange(start as int, r.1 as int),
{
    let mut literal = String::new();
    let j = read_digits(src, start, &mut literal);
    proof {
        lemma_digits_end_bounds(src@, start as nat);
    }
    if next_is(src, j, '.') && j + 1 < src.len() && is_digit_char(src[j + 1]) {
        push_char(&mut literal, '.');
        let e = read_digits(src, j + 1, &mut literal);
        proof {
            lemma_digits_end_bounds(src@, (j + 1) as nat);
        }
        assert(literal@ =~= src@.subrange(start as int, e as int));
        (literal, e)
    } else {
        assert(literal@ == src@.subrange(start as int, j as int));
        (literal, j)
    }
}

/// Scans what starts at position `i` on line `line`: the token it makes, if any,
/// the position after it and the line there.
fn scan_one(src: &Vec<char>, i: usize, line: usize) -> (r: (Option<Token>, usize, usize))
    requires
        i < src.len(),
        line <= i,
    ensures
        i < r.1 <= src.len(),
        r.2 <= r.1,
        scan_from(src@, i as nat, line as nat) == opt_view(r.0) + scan_from(
            src@,
            r.1 as nat,
            r.2 as nat,
        ),
{
    let s = Ghost(src@);
    let c = src[i];
    let single = single_token(c, line);
    if single.is_some() {
        assert(seq![single.unwrap()@] =~= opt_view(single));
        (single, i + 1, line)
    } else if c == '/' {
        if next_is(src, i + 1, '/') {
            let e = skip_comment(src, i + 2);
            proof {
                lemma_comment_end_bounds(s@, (i + 2) as nat);
                assert(opt_view(None) + scan_from(s@, e as nat, line as nat) =~= scan_from(
                    s@,
                    e as nat,
                    line as nat,
                ));
            }
            (None, e, line)
        } else {
            (Some(Token::Slash { line }), i + 1, line)
        }
    } else if c == '!' || c == '=' || c == '<' || c == '>' {
        if next_is(src, i + 1, '=') {
            (Some(comparison_token(c, true, line)), i + 2, line)
        } else {
            (Some(comparison_token(c, false, line)), i + 1, line)
        }
    } else if c == '"' {
        let (literal, e, lines) = read_string(src, i + 1);
        proof {
            lemma_string_end_bounds(s@, (i + 1) as nat);
        }
        let next = if e < src.len() {
            e + 1
        } else {
            e
        };
        (Some(Token::String { line, literal }), next, line + lines)
    } else if is_digit_char(c) {
        let (literal, e) = read_number(src, i);
        proof {
            lemma_number_end_bounds(s@, i as nat);
        }
        (Some(Token::Number { line, literal }), e, line)
    } else if c == ' ' || c == '\r' || c == '\t' {
        assert(opt_view(None) + scan_from(s@, (i + 1) as nat, line as nat) =~= scan_from(
            s@,
            (i + 1) as nat,
            line as nat,
        ));
        (None, i + 1, line)
    } else if c == '\n' {
        assert(opt_view(None) + scan_from(s@, (i + 1) as nat, (line + 1) as nat) =~= scan_from(
            s@,
            (i + 1) as nat,
            (line + 1) as nat,
        ));
        (None, i + 1, line + 1)
    } else {
        let message = unexpected_character_message(c, line);
        (Some(Token::Invalid { message, line }), i + 1, line)
    }
}

impl Scanner {
    /// A scanner that owns `source`.
    pub fn new(source: String) -> (r: Scanner)
        ensures
            r@ == source@,
    {
        Scanner { source }
    }

    /// All tokens of the source, in order: the source is left as it was, so it can
    /// be scanned again with the same result.
    pub fn scan_tokens(&self) -> (tokens: Vec<Token>)
        ensures
            tokens@.map_values(|t: Token| t@) == scan(self@),
    {
        let src = chars_of(&self.source);
        let mut tokens: Vec<Token> = Vec::new();
        let mut i: usize = 0;
        let mut line: usize = 0;
        assert(tokens@.map_values(|t: Token| t@) + scan_from(src@, 0, 0) =~= scan(self@));
        while i < src.len()
            invariant
                src@ == self@,
                i <= src.len(),
                line <= i,
                tokens@.map_values(|t: Token| t@) + scan_from(src@, i as nat, line as nat) == scan(
                    self@,
                ),
            decreases src.len() - i,
        {
            let ghost before = tokens@.map_values(|t: Token| t@);
            let (token, next, next_line) = scan_one(&src, i, line);
            match token {
                Some(t) => {
                    tokens.push(t);
                    assert(tokens@.map_values(|t: Token| t@) =~= before + opt_view(token));
                },
                None => {
                    assert(tokens@.map_values(|t: Token| t@) =~= before + opt_view(token));
                },
            }
            assert(tokens@.map_values(|t: Token| t@) + scan_from(src@, next as nat, next_line as nat)
                =~= before + scan_from(src@, i as nat, line as nat));
            i = next;
            line = next_line;
        }
        assert(scan_from(src@, i as nat, line as nat) =~= Seq::<TokenView>::empty());
        assert(tokens@.map_values(|t: Token| t@) =~= scan(self@));
        tokens
    }
}

} // verus!
