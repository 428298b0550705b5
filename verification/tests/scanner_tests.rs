use json_parser::scanner::{Scanner, ScannerErrKind};
use json_parser::token::{Token, TokenKind};

#[test]
fn scanner_test_individual_tokens() {
    let cases = vec![
        ("[", TokenKind::LBracket),
        ("]", TokenKind::RBracket),
        ("{", TokenKind::LCurlyBracket),
        ("}", TokenKind::RCurlyBracket),
        (":", TokenKind::Colon),
        (",", TokenKind::Comma),
        ("1234", TokenKind::Number),
        ("-1234", TokenKind::Number),
        ("1234e5", TokenKind::Number),
        ("1234E5", TokenKind::Number),
        ("1234.567", TokenKind::Number),
        ("1234.567e5", TokenKind::Number),
        ("1234.567e+5", TokenKind::Number),
        ("1234.567e-5", TokenKind::Number),
        ("-1234.567e-5", TokenKind::Number),
        ("\"str a_b\"", TokenKind::String("str a_b".to_string())),
        ("true", TokenKind::Bool),
        ("false", TokenKind::Bool),
        ("null", TokenKind::Null),
    ];

    for (source, expected) in cases {
        let mut scanner = Scanner::init(source);
        assert_eq!(
            Ok(Some(expected)),
            scanner.next_token().map(|x| x.map(|y| y.kind))
        );
    }
}

#[test]
fn scanner_test_multiple_tokens() {
    let mut scanner = Scanner::init("{ 1234 12.34 \"hi\" true false null [] }");
    let expected = vec![
        TokenKind::LCurlyBracket,
        TokenKind::Number,
        TokenKind::Number,
        TokenKind::String("hi".to_string()),
        TokenKind::Bool,
        TokenKind::Bool,
        TokenKind::Null,
        TokenKind::LBracket,
        TokenKind::RBracket,
        TokenKind::RCurlyBracket,
    ];

    for token in expected {
        assert_eq!(
            Ok(Some(token)),
            scanner.next_token().map(|x| x.map(|y| y.kind))
        );
    }
}

#[test]
fn scanner_test_whitespace() {
    let mut scanner =
        Scanner::init("{\t\n1234 12.34 \"hi\"\n   \t  \n true \r\n false \rnull [] }");
    let expected = vec![
        TokenKind::LCurlyBracket,
        TokenKind::Number,
        TokenKind::Number,
        TokenKind::String("hi".to_string()),
        TokenKind::Bool,
        TokenKind::Bool,
        TokenKind::Null,
        TokenKind::LBracket,
        TokenKind::RBracket,
        TokenKind::RCurlyBracket,
    ];

    for token in expected {
        assert_eq!(
            Ok(Some(token)),
            scanner.next_token().map(|x| x.map(|y| y.kind))
        );
    }
}

#[test]
fn scanner_test_invalid_tokens() {
    let cases = vec![
        ("\"unterminated\n", ScannerErrKind::UnterminatedString),
        ("\"end of source", ScannerErrKind::UnexpectedEndOfSource),
        ("1234e", ScannerErrKind::InvalidNumber),
        ("1234a", ScannerErrKind::InvalidNumber),
        ("notkeyword", ScannerErrKind::UnrecognisedKeyword),
        ("_", ScannerErrKind::UnrecognisedSymbol),
        ("^", ScannerErrKind::UnrecognisedSymbol),
    ];

    for (source, expected) in cases {
        let mut scanner = Scanner::init(source);
        assert_eq!(Err(expected), scanner.next_token().map_err(|x| x.kind));
    }
}

#[test]
fn scanner_test_valid_escape_sequences() {
    let cases = vec![
        (r#""\u00A9""#, "\u{00A9}"),
        (r#""\n""#, "\n"),
        (r#""\r""#, "\r"),
        (r#""\b""#, "\x08"),
        (r#""\/""#, "/"),
        (r#""\\""#, "\\"),
    ];

    for (source, expected) in cases {
        let mut scanner = Scanner::init(source);
        let token = scanner.next_token();

        assert!(matches!(
            token,
            Ok(Some(Token { kind: TokenKind::String(ref s), .. })) if s == expected
        ));
    }
}

#[test]
fn scanner_test_invalid_escape_sequences() {
    let cases = vec![r#""\uZZZZ""#, r#""\uD800""#, r#""bad\escape""#];

    for source in cases {
        let mut scanner = Scanner::init(source);
        assert_eq!(
            Err(ScannerErrKind::InvalidEscapeSequence),
            scanner.next_token().map_err(|x| x.kind)
        );
    }
}

#[test]
fn test_line_numbers() {
    let source = "\"line 1\" \"still line 1\"\n2\n\r\n4\r\t4";
    let expected = vec![1, 1, 2, 4, 4];
    let mut scanner = Scanner::init(source);

    for line in expected {
        assert_eq!(line, scanner.next_token().unwrap().unwrap().line);
    }
}

#[test]
fn test_lexemes() {
    let source = "\"lexeme 1\" \"lexeme 2\" 3 4 true";
    let expected = vec!["\"lexeme 1\"", "\"lexeme 2\"", "3", "4", "true"];
    let mut scanner = Scanner::init(source);

    for lexeme in expected {
        assert_eq!(lexeme, scanner.next_token().unwrap().unwrap().lexeme);
    }
}

#[test]
fn test_string_contents() {
    let source = "\"str 1\" \"str\\t 2\" \"str 3 \u{1F600}\"";
    let expected = vec!["str 1", "str\t 2", "str 3 \u{1F600}"];
    let mut scanner = Scanner::init(source);

    for str_contents in expected {
        assert_eq!(
            TokenKind::String(str_contents.to_string()),
            scanner.next_token().unwrap().unwrap().kind
        );
    }
}

#[test]
fn scanner_test_next_token_at_end() {
    let mut scanner = Scanner::init("\"one_token\"");
    assert!(matches!(scanner.next_token(), Ok(Some(_))));
    assert!(matches!(scanner.next_token(), Ok(None)));
}

#[test]
fn test_token_init() {
    let t = Token::init(TokenKind::Colon, 3, ":");
    assert_eq!(
        Token { kind: TokenKind::Colon, line: 3, lexeme: ":".to_string() },
        t
    );
}
