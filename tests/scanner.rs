use interpret::scanner::Scanner;
use interpret::token::Token;

fn scan(text: &str) -> Vec<Token> {
    Scanner::new(text.to_string()).scan_tokens()
}

fn line_of(token: &Token) -> usize {
    match token {
        Token::LeftParen { line }
        | Token::RightParen { line }
        | Token::LeftBrace { line }
        | Token::RightBrace { line }
        | Token::Comma { line }
        | Token::Dot { line }
        | Token::Minus { line }
        | Token::Plus { line }
        | Token::Semicolon { line }
        | Token::Slash { line }
        | Token::Asterisk { line }
        | Token::Bang { line }
        | Token::BangEqual { line }
        | Token::Equal { line }
        | Token::EqualEqual { line }
        | Token::Greater { line }
        | Token::GreaterEqual { line }
        | Token::Less { line }
        | Token::LessEqual { line }
        | Token::Identifier { line, .. }
        | Token::String { line, .. }
        | Token::Number { line, .. }
        | Token::And { line }
        | Token::Class { line }
        | Token::Else { line }
        | Token::False { line }
        | Token::Fun { line }
        | Token::For { line }
        | Token::If { line }
        | Token::Nil { line }
        | Token::Or { line }
        | Token::Print { line }
        | Token::Return { line }
        | Token::Super { line }
        | Token::This { line }
        | Token::True { line }
        | Token::Var { line }
        | Token::While { line }
        | Token::Eof { line }
        | Token::Invalid { line, .. } => *line,
    }
}

#[test]
fn string_and_comment() {
    let scanner = Scanner::new("\"asd\" // Ignored comment".to_string());

    let tokens = scanner.scan_tokens();

    assert_eq!(tokens.len(), 1);

    assert!(matches!(tokens[0], Token::String { .. }));

    match &tokens[0] {
        Token::String { literal, .. } => {
            assert_eq!(literal, "asd");
        }
        _ => {
            unreachable!();
        }
    }
}

#[test]
fn newline_after_comment() {
    let scanner = Scanner::new("// Ignored comment\n \"asd\"".to_string());

    let tokens = scanner.scan_tokens();

    assert_eq!(tokens.len(), 1);

    assert!(matches!(tokens[0], Token::String { .. }));

    match &tokens[0] {
        Token::String { literal, .. } => {
            assert_eq!(literal, "asd");
        }
        _ => {
            unreachable!();
        }
    }
}

#[test]
fn number_and_comment() {
    let scanner = Scanner::new("420.69 // Ignored comment".to_string());

    let tokens = scanner.scan_tokens();

    assert_eq!(tokens.len(), 1);

    match &tokens[0] {
        Token::Number { literal, .. } => {
            let value: f64 = literal.parse().unwrap();
            assert!((value - 420.69).abs() < f64::EPSILON);
        }
        _ => {
            unreachable!();
        }
    }
}

#[test]
fn single_character_tokens() {
    let cases: Vec<(&str, fn(&Token) -> bool)> = vec![
        ("(", |t| matches!(t, Token::LeftParen { line: 0 })),
        (")", |t| matches!(t, Token::RightParen { line: 0 })),
        ("{", |t| matches!(t, Token::LeftBrace { line: 0 })),
        ("}", |t| matches!(t, Token::RightBrace { line: 0 })),
        (",", |t| matches!(t, Token::Comma { line: 0 })),
        (".", |t| matches!(t, Token::Dot { line: 0 })),
        ("-", |t| matches!(t, Token::Minus { line: 0 })),
        ("+", |t| matches!(t, Token::Plus { line: 0 })),
        (";", |t| matches!(t, Token::Semicolon { line: 0 })),
        ("*", |t| matches!(t, Token::Asterisk { line: 0 })),
        ("/", |t| matches!(t, Token::Slash { line: 0 })),
    ];
    for (text, is_expected) in cases {
        let tokens = scan(text);
        assert_eq!(tokens.len(), 1, "{}", text);
        assert!(is_expected(&tokens[0]), "{}", text);
    }
}

#[test]
fn comparison_tokens() {
    let cases: Vec<(&str, fn(&Token) -> bool)> = vec![
        ("!=", |t| matches!(t, Token::BangEqual { line: 0 })),
        ("==", |t| matches!(t, Token::EqualEqual { line: 0 })),
        ("<=", |t| matches!(t, Token::LessEqual { line: 0 })),
        (">=", |t| matches!(t, Token::GreaterEqual { line: 0 })),
        ("!", |t| matches!(t, Token::Bang { line: 0 })),
        ("=", |t| matches!(t, Token::Equal { line: 0 })),
        ("<", |t| matches!(t, Token::Less { line: 0 })),
        (">", |t| matches!(t, Token::Greater { line: 0 })),
    ];
    for (text, is_expected) in cases {
        let tokens = scan(text);
        assert_eq!(tokens.len(), 1, "{}", text);
        assert!(is_expected(&tokens[0]), "{}", text);
    }
}

#[test]
fn comparison_followed_by_other_character() {
    let tokens = scan("<(");
    assert_eq!(tokens.len(), 2);
    assert!(matches!(tokens[0], Token::Less { line: 0 }));
    assert!(matches!(tokens[1], Token::LeftParen { line: 0 }));
}

#[test]
fn string_after_comment_is_on_second_line() {
    let tokens = scan("// Ignored comment\n \"asd\"");
    assert_eq!(tokens.len(), 1);
    assert!(matches!(&tokens[0], Token::String { line: 1, literal } if literal == "asd"));
}

#[test]
fn unrecognized_character_is_invalid() {
    let tokens = scan("@");
    assert_eq!(tokens.len(), 1);
    match &tokens[0] {
        Token::Invalid { message, line } => {
            assert_eq!(*line, 0);
            assert_eq!(message, "Unexpected character @ line 0");
        }
        _ => unreachable!(),
    }
}

#[test]
fn invalid_message_names_a_line_of_two_digits() {
    let tokens = scan("\n\n\n\n\n\n\n\n\n\n\n\n#");
    assert_eq!(tokens.len(), 1);
    match &tokens[0] {
        Token::Invalid { message, line } => {
            assert_eq!(*line, 12);
            assert_eq!(message, "Unexpected character # line 12");
        }
        _ => unreachable!(),
    }
}

#[test]
fn letters_are_each_invalid() {
    let tokens = scan("ab");
    assert_eq!(tokens.len(), 2);
    assert!(matches!(&tokens[0], Token::Invalid { message, line: 0 } if message == "Unexpected character a line 0"));
    assert!(matches!(&tokens[1], Token::Invalid { message, line: 0 } if message == "Unexpected character b line 0"));
}

#[test]
fn rescanning_gives_the_same_tokens() {
    let text = "(1.5 != \"x\ny\") // done\n@ 7.";
    let scanner = Scanner::new(text.to_string());
    let first = format!("{:?}", scanner.scan_tokens());
    let second = format!("{:?}", scanner.scan_tokens());
    let other = format!("{:?}", Scanner::new(text.to_string()).scan_tokens());
    assert_eq!(first, second);
    assert_eq!(first, other);
}

#[test]
fn each_newline_adds_one_to_later_lines() {
    let tokens = scan("+\n+\n\n+ \"a\nb\" -");
    let lines: Vec<usize> = tokens.iter().map(line_of).collect();
    assert_eq!(lines, vec![0, 1, 3, 3, 4]);
    let shifted = scan("\n\n+\n+\n\n+ \"a\nb\" -");
    let shifted_lines: Vec<usize> = shifted.iter().map(line_of).collect();
    assert_eq!(shifted_lines, vec![2, 3, 5, 5, 6]);
}

#[test]
fn number_followed_by_dot_without_digits() {
    let tokens = scan("12.");
    assert_eq!(tokens.len(), 2);
    assert!(matches!(&tokens[0], Token::Number { literal, line: 0 } if literal == "12"));
    assert!(matches!(tokens[1], Token::Dot { line: 0 }));
}

#[test]
fn integer_number() {
    let tokens = scan("  307\t;");
    assert_eq!(tokens.len(), 2);
    assert!(matches!(&tokens[0], Token::Number { literal, line: 0 } if literal == "307"));
    assert!(matches!(tokens[1], Token::Semicolon { line: 0 }));
}

#[test]
fn unterminated_string_keeps_its_text() {
    let tokens = scan("\"ab");
    assert_eq!(tokens.len(), 1);
    assert!(matches!(&tokens[0], Token::String { literal, line: 0 } if literal == "ab"));
}

#[test]
fn empty_input_has_no_tokens() {
    assert!(scan("").is_empty());
    assert!(scan(" \r\t\n// only a comment").is_empty());
}

#[test]
fn non_ascii_character_is_invalid() {
    let tokens = scan("é");
    assert_eq!(tokens.len(), 1);
    assert!(matches!(&tokens[0], Token::Invalid { message, line: 0 } if message == "Unexpected character é line 0"));
}
