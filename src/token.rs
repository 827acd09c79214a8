use vstd::prelude::*;

verus! {

/// One lexical unit of a script, stamped with the (0-based) line on which it starts.
///
/// A number keeps the digits it was written with (`"420.69"`); turning them into a
/// floating-point value is left to the consumer of the tokens.
#[derive(Debug, Clone)]
pub enum Token {
    // Single characters
    LeftParen { line: usize },
    RightParen { line: usize },
    LeftBrace { line: usize },
    RightBrace { line: usize },
    Comma { line: usize },
    Dot { line: usize },
    Minus { line: usize },
    Plus { line: usize },
    Semicolon { line: usize },
    Slash { line: usize },
    Asterisk { line: usize },
    // Equality and comparison
    Bang { line: usize },
    BangEqual { line: usize },
    Equal { line: usize },
    EqualEqual { line: usize },
    Greater { line: usize },
    GreaterEqual { line: usize },
    Less { line: usize },
    LessEqual { line: usize },
    // Literals
    Identifier { line: usize, literal: String },
    String { line: usize, literal: String },
    Number { line: usize, literal: String },
    // Keywords
    And { line: usize },
    Class { line: usize },
    Else { line: usize },
    False { line: usize },
    Fun { line: usize },
    For { line: usize },
    If { line: usize },
    Nil { line: usize },
    Or { line: usize },
    Print { line: usize },
    Return { line: usize },
    Super { line: usize },
    This { line: usize },
    True { line: usize },
    Var { line: usize },
    While { line: usize },
    // Sentinels
    Eof { line: usize },
    Invalid { message: String, line: usize },
}

/// What kind of token a value is, with its text where it carries one.
pub enum Kind {
    LeftParen,
    RightParen,
    LeftBrace,
    RightBrace,
    Comma,
    Dot,
    Minus,
    Plus,
    Semicolon,
    Slash,
    Asterisk,
    Bang,
    BangEqual,
    Equal,
    EqualEqual,
    Greater,
    GreaterEqual,
    Less,
    LessEqual,
    Identifier(Seq<char>),
    Str(Seq<char>),
    Number(Seq<char>),
    And,
    Class,
    Else,
    False,
    Fun,
    For,
    If,
    Nil,
    Or,
    Print,
    Return,
    Super,
    This,
    True,
    Var,
    While,
    Eof,
    Invalid(Seq<char>),
}

/// The mathematical value of a token: its kind and its line.
pub struct TokenView {
    pub kind: Kind,
    pub line: nat,
}

pub open spec fn tv(kind: Kind, line: nat) -> TokenView {
    TokenView { kind, line }
}

impl View for Token {
    type V = TokenView;

    open spec fn view(&self) -> TokenView {
        match self {
            Token::LeftParen { line } => tv(Kind::LeftParen, *line as nat),
            Token::RightParen { line } => tv(Kind::RightParen, *line as nat),
            Token::LeftBrace { line } => tv(Kind::LeftBrace, *line as nat),
            Token::RightBrace { line } => tv(Kind::RightBrace, *line as nat),
            Token::Comma { line } => tv(Kind::Comma, *line as nat),
            Token::Dot { line } => tv(Kind::Dot, *line as nat),
            Token::Minus { line } => tv(Kind::Minus, *line as nat),
            Token::Plus { line } => tv(Kind::Plus, *line as nat),
            Token::Semicolon { line } => tv(Kind::Semicolon, *line as nat),
            Token::Slash { line } => tv(Kind::Slash, *line as nat),
            Token::Asterisk { line } => tv(Kind::Asterisk, *line as nat),
            Token::Bang { line } => tv(Kind::Bang, *line as nat),
            Token::BangEqual { line } => tv(Kind::BangEqual, *line as nat),
            Token::Equal { line } => tv(Kind::Equal, *line as nat),
            Token::EqualEqual { line } => tv(Kind::EqualEqual, *line as nat),
            Token::Greater { line } => tv(Kind::Greater, *line as nat),
            Token::GreaterEqual { line } => tv(Kind::GreaterEqual, *line as nat),
            Token::Less { line } => tv(Kind::Less, *line as nat),
            Token::LessEqual { line } => tv(Kind::LessEqual, *line as nat),
            Token::Identifier { line, literal } => tv(Kind::Identifier(literal@), *line as nat),
            Token::String { line, literal } => tv(Kind::Str(literal@), *line as nat),
            Token::Number { line, literal } => tv(Kind::Number(literal@), *line as nat),
            Token::And { line } => tv(Kind::And, *line as nat),
            Token::Class { line } => tv(Kind::Class, *line as nat),
            Token::Else { line } => tv(Kind::Else, *line as nat),
            Token::False { line } => tv(Kind::False, *line as nat),
            Token::Fun { line } => tv(Kind::Fun, *line as nat),
            Token::For { line } => tv(Kind::For, *line as nat),
            Token::If { line } => tv(Kind::If, *line as nat),
            Token::Nil { line } => tv(Kind::Nil, *line as nat),
            Token::Or { line } => tv(Kind::Or, *line as nat),
            Token::Print { line } => tv(Kind::Print, *line as nat),
            Token::Return { line } => tv(Kind::Return, *line as nat),
            Token::Super { line } => tv(Kind::Super, *line as nat),
            Token::This { line } => tv(Kind::This, *line as nat),
            Token::True { line } => tv(Kind::True, *line as nat),
            Token::Var { line } => tv(Kind::Var, *line as nat),
            Token::While { line } => tv(Kind::While, *line as nat),
            Token::Eof { line } => tv(Kind::Eof, *line as nat),
            Token::Invalid { message, line } => tv(Kind::Invalid(message@), *line as nat),
        }
    }
}

} // verus!
