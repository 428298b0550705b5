use json_parser::parser::{Parser, ParserErr, ParserErrKind};

#[test]
fn options_test_null() {
    let result = Parser::parse::<Option<u32>>("null");
    assert_eq!(Ok(None), result);
}

#[test]
fn test_nested_option_null() {
    let result = Parser::parse::<Option<Option<u32>>>("null");
    assert_eq!(Ok(None), result);
}

#[test]
fn test_with_value() {
    let result = Parser::parse::<Option<String>>("\"42\"");
    assert_eq!(Ok(Some("42".to_string())), result);
}

#[test]
fn test_nested_with_value() {
    let result = Parser::parse::<Option<Option<bool>>>("true");
    assert_eq!(Ok(Some(Some(true))), result);
}

#[test]
fn test_nested_with_incorrect_type() {
    let result = Parser::parse::<Option<bool>>("5");
    assert_eq!(
        Err(ParserErr {
            kind: ParserErrKind::UnexpectedToken,
            line: 1,
            lexeme: "5".to_string(),
        }),
        result
    );
}

#[test]
fn test_signed_int() {
    let result = Parser::parse::<i64>("-5");
    assert_eq!(Ok(-5), result);
}

#[test]
fn test_unsigned_int() {
    let result = Parser::parse::<u16>("5");
    assert_eq!(Ok(5), result);
}

#[test]
fn test_unsigned_int_negative() {
    let result = Parser::parse::<u32>("-5");
    assert_eq!(
        Err(ParserErr {
            kind: ParserErrKind::InvalidNumber,
            line: 1,
            lexeme: "-5".to_string(),
        }),
        result
    );
}

#[test]
fn test_int_scientific_notation() {
    let result = Parser::parse::<i32>("5e2");
    assert_eq!(
        Err(ParserErr {
            kind: ParserErrKind::InvalidNumber,
            line: 1,
            lexeme: "5e2".to_string(),
        }),
        result
    );
}

#[test]
fn primitives_test_bool() {
    let result = Parser::parse::<bool>("true");
    assert_eq!(Ok(true), result);

    let result = Parser::parse::<bool>("false");
    assert_eq!(Ok(false), result);
}

#[test]
fn test_bool_invalid() {
    let result = Parser::parse::<bool>("null");
    assert_eq!(
        Err(ParserErr {
            kind: ParserErrKind::UnexpectedToken,
            line: 1,
            lexeme: "null".to_string(),
        }),
        result
    );
}

#[test]
fn test_unquoted() {
    let result = Parser::parse::<String>(r#""test""#);
    assert_eq!(Ok("test".to_string()), result);
}

#[test]
fn strings_test_valid_escape_sequences() {
    let cases = vec![
        (r#""\u00A9""#, "\u{00A9}"),
        (r#""\n""#, "\n"),
        (r#""\r""#, "\r"),
        (r#""\b""#, "\x08"),
        (r#""\/""#, "/"),
        (r#""\\""#, "\\"),
    ];

    for (source, expected) in cases {
        let result = Parser::parse::<String>(source);
        assert_eq!(Ok(expected.to_string()), result);
    }
}

#[test]
fn strings_test_invalid_escape_sequences() {
    let cases = vec![
        (r#""\uZZZZ""#, r#""\uZZZZ"#),
        (r#""\uD800""#, r#""\uD800"#),
        (r#""bad\escape""#, r#""bad\e"#),
    ];

    for (source, error_lexeme) in cases {
        let result = Parser::parse::<String>(source);
        assert_eq!(
            Err(ParserErr {
                kind: ParserErrKind::InvalidEscapeSequence,
                line: 1,
                lexeme: error_lexeme.to_string(),
            }),
            result
        );
    }
}

#[test]
fn test_int_extremes() {
    assert_eq!(Ok(u8::MAX), Parser::parse::<u8>("255"));
    assert_eq!(
        Err(ParserErrKind::InvalidNumber),
        Parser::parse::<u8>("256").map_err(|e| e.kind)
    );
    assert_eq!(Ok(i8::MIN), Parser::parse::<i8>("-128"));
    assert_eq!(
        Err(ParserErrKind::InvalidNumber),
        Parser::parse::<i8>("-129").map_err(|e| e.kind)
    );
    assert_eq!(Ok(i64::MIN), Parser::parse::<i64>("-9223372036854775808"));
    assert_eq!(Ok(i64::MAX), Parser::parse::<i64>("9223372036854775807"));
    assert_eq!(
        Err(ParserErrKind::InvalidNumber),
        Parser::parse::<i64>("9223372036854775808").map_err(|e| e.kind)
    );
    assert_eq!(
        Ok(u128::MAX),
        Parser::parse::<u128>("340282366920938463463374607431768211455")
    );
    assert_eq!(
        Err(ParserErrKind::InvalidNumber),
        Parser::parse::<u128>("340282366920938463463374607431768211456").map_err(|e| e.kind)
    );
    assert_eq!(
        Ok(i128::MIN),
        Parser::parse::<i128>("-170141183460469231731687303715884105728")
    );
    assert_eq!(Ok(0), Parser::parse::<i32>("-0"));
    assert_eq!(
        Err(ParserErrKind::InvalidNumber),
        Parser::parse::<u32>("-0").map_err(|e| e.kind)
    );
    assert_eq!(Ok(7), Parser::parse::<u32>("007"));
}

#[test]
fn test_empty_source() {
    assert_eq!(
        Err(ParserErrKind::UnexpectedEndOfSource),
        Parser::parse::<u32>("").map_err(|e| e.kind)
    );
    assert_eq!(
        Err(ParserErrKind::UnexpectedEndOfSource),
        Parser::parse::<json_parser::json_value::JsonValue>("  \n ").map_err(|e| e.kind)
    );
}
