use json_parser::json_value::{JsonMap, JsonValue};
use json_parser::parser::{Parser, ParserErr, ParserErrKind};
use json_parser::token::TokenKind;

fn num(lexeme: &str) -> JsonValue {
    JsonValue::Number(lexeme.to_string())
}

fn string(s: &str) -> JsonValue {
    JsonValue::String(s.to_string())
}

fn obj(entries: Vec<(&str, JsonValue)>) -> JsonValue {
    JsonValue::Object(JsonMap {
        entries: entries.into_iter().map(|(k, v)| (k.to_string(), v)).collect(),
    })
}

#[test]
fn json_value_test_object() {
    let result = Parser::parse::<JsonValue>(r#"{"prop": 3}"#);
    assert_eq!(Ok(obj(vec![("prop", num("3"))])), result);
}

#[test]
fn json_value_test_array() {
    let result = Parser::parse::<JsonValue>(r#"[1, 2, 3]"#);
    assert_eq!(
        Ok(JsonValue::Array(vec![num("1"), num("2"), num("3")])),
        result
    );
}

#[test]
fn test_string() {
    let result = Parser::parse::<JsonValue>(r#""hi""#);
    assert_eq!(Ok(string("hi")), result);
}

#[test]
fn test_number() {
    let result = Parser::parse::<JsonValue>(r#"5.55"#);
    assert_eq!(Ok(num("5.55")), result);
}

#[test]
fn json_value_test_bool() {
    let result = Parser::parse::<JsonValue>(r#"false"#);
    assert_eq!(Ok(JsonValue::Bool(false)), result);
}

#[test]
fn json_value_test_null() {
    let result = Parser::parse::<JsonValue>(r#"null"#);
    assert_eq!(Ok(JsonValue::Null), result);
}

#[test]
fn test_invalid_token() {
    let result = Parser::parse::<JsonValue>(r#":"#);
    assert_eq!(
        Err(ParserErr {
            kind: ParserErrKind::UnexpectedToken,
            line: 1,
            lexeme: ":".to_string(),
        }),
        result
    );
}

#[test]
fn arrays_test_empty() {
    let result = Parser::parse::<Vec<JsonValue>>("[]");
    assert_eq!(Ok(Vec::new()), result);
}

#[test]
fn arrays_test_nested() {
    let expected_elems = vec![vec![1, 2], vec![3, 4, 5]];

    let result = Parser::parse::<Vec<Vec<u32>>>(r#"[[1,2], [3, 4, 5]]"#);
    assert_eq!(Ok(expected_elems), result);
}

#[test]
fn arrays_test_no_trailing_comma() {
    let result = Parser::parse::<Vec<JsonValue>>(r#"[1, 2,]"#);
    assert_eq!(
        Err(ParserErr {
            kind: ParserErrKind::UnexpectedToken,
            line: 1,
            lexeme: ",".to_string(),
        }),
        result
    );
}

#[test]
fn arrays_test_mixed() {
    let expected_elems = vec![string("first"), string("second"), num("3"), JsonValue::Bool(true)];

    let result = Parser::parse::<Vec<JsonValue>>(r#"["first", "second", 3, true]"#);
    assert_eq!(Ok(expected_elems), result);
}

#[test]
fn objects_test_empty() {
    let result = Parser::parse::<JsonMap<JsonValue>>("{}");
    assert_eq!(Ok(JsonMap { entries: Vec::new() }), result);
}

#[test]
fn objects_test_mixed() {
    let result = Parser::parse::<JsonMap<JsonValue>>(
        r#"{"prop1": 5, "prop2": true, "prop3": "test"}"#,
    );

    let expected = JsonMap {
        entries: vec![
            ("prop1".to_string(), num("5")),
            ("prop2".to_string(), JsonValue::Bool(true)),
            ("prop3".to_string(), string("test")),
        ],
    };

    assert_eq!(Ok(expected), result);
}

#[test]
fn test_prop_no_quotes() {
    let result = Parser::parse::<JsonMap<JsonValue>>(r#"{prop: 5}"#);
    assert_eq!(
        Err(ParserErr {
            kind: ParserErrKind::UnrecognisedLiteral,
            line: 1,
            lexeme: "prop".to_string(),
        }),
        result
    );
}

#[test]
fn test_literal_prop_key() {
    let result = Parser::parse::<JsonMap<JsonValue>>(r#"{true: 5}"#);
    assert_eq!(
        Err(ParserErr {
            kind: ParserErrKind::UnexpectedToken,
            line: 1,
            lexeme: "true".to_string(),
        }),
        result
    );
}

#[test]
fn objects_test_no_trailing_comma() {
    let result = Parser::parse::<JsonMap<JsonValue>>(r#"{"prop1": 5, "prop2": true,}"#);
    assert_eq!(
        Err(ParserErr {
            kind: ParserErrKind::UnexpectedToken,
            line: 1,
            lexeme: ",".to_string(),
        }),
        result
    );
}

#[test]
fn test_missing_colon() {
    let result = Parser::parse::<JsonMap<JsonValue>>(r#"{"prop" 5}"#);
    assert_eq!(
        Err(ParserErr {
            kind: ParserErrKind::ExpectedToken(TokenKind::Colon),
            line: 1,
            lexeme: "5".to_string(),
        }),
        result
    );
}

#[test]
fn objects_test_nested() {
    let expected = JsonMap {
        entries: vec![
            ("name".to_string(), string("Jane Doe")),
            (
                "nested".to_string(),
                obj(vec![("age", num("32")), ("phone", string("01234567890"))]),
            ),
        ],
    };

    let result = Parser::parse::<JsonMap<JsonValue>>(
        r#"{"name": "Jane Doe", "nested": {"age": 32, "phone": "01234567890"}}"#,
    );
    assert_eq!(Ok(expected), result);
}

#[test]
fn test_top_level() {
    let cases = vec![
        ("[]", JsonValue::Array(vec![])),
        ("{}", obj(vec![])),
        ("1234", num("1234")),
        ("1234e5", num("1234e5")),
        ("1234.567", num("1234.567")),
        ("1234.567e5", num("1234.567e5")),
        (r#""str a_b""#, string("str a_b")),
        ("true", JsonValue::Bool(true)),
        ("false", JsonValue::Bool(false)),
        ("null", JsonValue::Null),
    ];

    for (source, expected) in cases {
        let result = Parser::parse(source);
        assert_eq!(Ok(expected), result);
    }
}

#[test]
fn parser_test_object() {
    let expected_props = vec![
        ("name".to_string(), string("Jane Doe")),
        ("age".to_string(), num("32")),
    ];
    let result = Parser::parse(r#"{"name": "Jane Doe", "age": 32}"#);
    if let Ok(JsonValue::Object(o)) = result {
        assert_eq!(expected_props, o.entries);
    } else {
        panic!("Expected 'Ok(JsonValue::Object(_))', got '{result:?}'");
    }
}

#[test]
fn parser_test_array() {
    let expected_elems = vec![string("first"), string("second"), num("3"), JsonValue::Bool(true)];

    let result = Parser::parse(r#"["first", "second", 3, true]"#);
    if let Ok(JsonValue::Array(arr)) = result {
        assert_eq!(expected_elems, arr);
    } else {
        panic!("Expected 'Ok(JsonValue::Array(_))', got '{result:?}'");
    }
}

#[test]
fn test_invalid_json() {
    let cases = vec![
        ("[,]", ParserErrKind::UnexpectedToken),
        ("{", ParserErrKind::UnexpectedEndOfSource),
        ("{} []", ParserErrKind::ExpectedEndOfSource),
        ("1234a", ParserErrKind::InvalidNumber),
        (r#"["trailing", "comma",]"#, ParserErrKind::UnexpectedToken),
        (r#"{"trailing": "comma",}"#, ParserErrKind::UnexpectedToken),
        (
            r#"["no" "comma"]"#,
            ParserErrKind::ExpectedToken(TokenKind::RBracket),
        ),
        ("{ true: 5 }", ParserErrKind::UnexpectedToken),
        ("{ 10: 5 }", ParserErrKind::UnexpectedToken),
        ("{ some_prop: 5 }", ParserErrKind::UnrecognisedLiteral),
        ("^", ParserErrKind::UnrecognisedSymbol),
        (r#""unclosed string"#, ParserErrKind::UnexpectedEndOfSource),
        (
            "[1, 2 3]",
            ParserErrKind::ExpectedToken(TokenKind::RBracket),
        ),
        (
            r#"{"key" "value"}"#,
            ParserErrKind::ExpectedToken(TokenKind::Colon),
        ),
        (r#"{"key": "value"#, ParserErrKind::UnexpectedEndOfSource),
        ("[null,]", ParserErrKind::UnexpectedToken),
        (r#"{"a": null,}"#, ParserErrKind::UnexpectedToken),
        ("tru", ParserErrKind::UnrecognisedLiteral),
        ("nulll", ParserErrKind::UnrecognisedLiteral),
        ("[--1]", ParserErrKind::InvalidNumber),
        ("[+1]", ParserErrKind::UnrecognisedSymbol),
        (r#"{null: "value"}"#, ParserErrKind::UnexpectedToken),
        (r#"{"key": undefined}"#, ParserErrKind::UnrecognisedLiteral),
        (r#""\uZZZZ""#, ParserErrKind::InvalidEscapeSequence),
        (
            r#"{"\uD800": "high surrogate only"}"#,
            ParserErrKind::InvalidEscapeSequence,
        ),
        (r#""bad\escape""#, ParserErrKind::InvalidEscapeSequence),
    ];

    for (source, expected) in cases {
        let result = Parser::parse::<JsonValue>(source);
        assert_eq!(
            Err(expected),
            result.map_err(|x| x.kind),
            "Ensure the following JSON is invalid: {source}"
        );
    }
}

#[test]
fn json_map_insert_replaces() {
    let mut m: JsonMap<u32> = JsonMap::new();
    assert_eq!(0, m.len());
    m.insert("a".to_string(), 1);
    m.insert("b".to_string(), 2);
    m.insert("a".to_string(), 3);
    assert_eq!(2, m.len());
    assert_eq!(
        JsonMap { entries: vec![("a".to_string(), 3), ("b".to_string(), 2)] },
        m
    );
}
