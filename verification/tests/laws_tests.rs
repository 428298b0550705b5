use json_parser::json_value::{JsonMap, JsonValue};
use json_parser::parser::{Parser, ParserErr, ParserErrKind};
use json_parser::records::{Address, Contact, History, Notifications, Person, Preferences};
use json_parser::render::render;
use json_parser::token::TokenKind;

fn num(lexeme: &str) -> JsonValue {
    JsonValue::Number(lexeme.to_string())
}

fn string(s: &str) -> JsonValue {
    JsonValue::String(s.to_string())
}

fn obj(entries: Vec<(&str, JsonValue)>) -> JsonValue {
    JsonValue::Object(JsonMap {
        entries: entries.into_iter().map(|(k, v)| (k.to_string(), v)).collect(),
    })
}

fn assert_round_trip(v: JsonValue) {
    let text = render(&v);
    assert_eq!(Ok(v), Parser::parse::<JsonValue>(&text), "render output: {text}");
}

#[test]
fn round_trip_scalars() {
    assert_round_trip(JsonValue::Null);
    assert_round_trip(JsonValue::Bool(true));
    assert_round_trip(JsonValue::Bool(false));
    assert_round_trip(num("0"));
    assert_round_trip(num("-12"));
    assert_round_trip(num("3.25"));
    assert_round_trip(num("12e-4"));
    assert_round_trip(num("-1234.567e+5"));
    assert_round_trip(string(""));
    assert_round_trip(string("plain"));
    assert_round_trip(string("with \"quotes\" and \\ backslash"));
    assert_round_trip(string("newline\nand tab\tand \u{00A9} and \u{1F600}"));
}

#[test]
fn round_trip_composites() {
    assert_round_trip(JsonValue::Array(vec![]));
    assert_round_trip(obj(vec![]));
    assert_round_trip(JsonValue::Array(vec![num("1"), string("two"), JsonValue::Bool(false)]));
    assert_round_trip(obj(vec![
        ("name", string("Jane Doe")),
        ("age", num("32")),
        ("tags", JsonValue::Array(vec![string("a"), string("b")])),
        (
            "nested",
            obj(vec![("inner", JsonValue::Array(vec![obj(vec![("deep", JsonValue::Null)])]))]),
        ),
    ]));
}

#[test]
fn render_exact_text() {
    let v = obj(vec![
        ("a", num("1")),
        ("b", JsonValue::Array(vec![string("x\ny"), JsonValue::Null])),
    ]);
    assert_eq!("{\"a\":1,\"b\":[\"x\\ny\",null]}", render(&v));
}

#[test]
fn empty_array_and_object() {
    assert_eq!(Ok(Vec::new()), Parser::parse::<Vec<JsonValue>>("[]"));
    assert_eq!(
        Ok(JsonMap { entries: Vec::new() }),
        Parser::parse::<JsonMap<JsonValue>>("{}")
    );
    assert_eq!(Ok(JsonValue::Array(vec![])), Parser::parse::<JsonValue>("[]"));
    assert_eq!(Ok(obj(vec![])), Parser::parse::<JsonValue>("{}"));
}

#[test]
fn trailing_comma_in_array() {
    let result = Parser::parse::<JsonValue>("[1, 2,]");
    assert_eq!(
        Err(ParserErr {
            kind: ParserErrKind::UnexpectedToken,
            line: 1,
            lexeme: ",".to_string(),
        }),
        result
    );
}

#[test]
fn trailing_comma_in_object() {
    let result = Parser::parse::<JsonValue>("{\"a\": 1,}");
    assert_eq!(
        Err(ParserErr {
            kind: ParserErrKind::UnexpectedToken,
            line: 1,
            lexeme: ",".to_string(),
        }),
        result
    );
}

#[test]
fn missing_colon_in_object() {
    let result = Parser::parse::<JsonValue>("{\"a\" 1}");
    assert_eq!(
        Err(ParserErr {
            kind: ParserErrKind::ExpectedToken(TokenKind::Colon),
            line: 1,
            lexeme: "1".to_string(),
        }),
        result
    );
}

#[test]
fn negative_for_unsigned_and_signed() {
    assert_eq!(
        Err(ParserErrKind::InvalidNumber),
        Parser::parse::<u32>("-5").map_err(|e| e.kind)
    );
    assert_eq!(Ok(-5), Parser::parse::<i64>("-5"));
}

#[test]
fn exponent_form_rejected_for_integer() {
    assert_eq!(
        Err(ParserErrKind::InvalidNumber),
        Parser::parse::<i32>("5e2").map_err(|e| e.kind)
    );
    assert_eq!(
        Err(ParserErrKind::InvalidNumber),
        Parser::parse::<i32>("5.0").map_err(|e| e.kind)
    );
}

#[test]
fn escape_decoding_and_failures() {
    assert_eq!(Ok("\n".to_string()), Parser::parse::<String>("\"\\n\""));
    assert_eq!(
        Ok("\u{00A9}".to_string()),
        Parser::parse::<String>("\"\\u00A9\"")
    );
    for source in ["\"\\uZZZZ\"", "\"\\uD800\"", "\"\\e\""] {
        assert_eq!(
            Err(ParserErrKind::InvalidEscapeSequence),
            Parser::parse::<String>(source).map_err(|e| e.kind),
            "expected an escape failure for {source}"
        );
    }
}

#[test]
fn extra_trailing_content() {
    assert_eq!(
        Err(ParserErrKind::ExpectedEndOfSource),
        Parser::parse::<JsonValue>("{} []").map_err(|e| e.kind)
    );
    assert_eq!(
        Err(ParserErrKind::ExpectedEndOfSource),
        Parser::parse::<u32>("5 5").map_err(|e| e.kind)
    );
}

#[test]
fn person_record_parses() {
    let result = Parser::parse::<Person>("{\"name\": \"Jane\", \"age\": 32}");
    assert_eq!(
        Ok(Person { name: "Jane".to_string(), age: 32 }),
        result
    );
}

#[test]
fn person_record_missing_field() {
    let result = Parser::parse::<Person>("{\"name\": \"Jane\"}");
    assert_eq!(
        Err(ParserErr {
            kind: ParserErrKind::MissingProperty("age".to_string()),
            line: 1,
            lexeme: "{".to_string(),
        }),
        result
    );
}

#[test]
fn person_record_unknown_field() {
    let result = Parser::parse::<Person>("{\"name\": \"Jane\", \"age\": 32, \"extra\": 1}");
    assert_eq!(
        Err(ParserErr {
            kind: ParserErrKind::UnknownProperty,
            line: 1,
            lexeme: "\"extra\"".to_string(),
        }),
        result
    );
}

#[test]
fn person_record_duplicate_key_keeps_later() {
    let result = Parser::parse::<Person>("{\"age\": 1, \"name\": \"J\", \"age\": 32}");
    assert_eq!(Ok(Person { name: "J".to_string(), age: 32 }), result);
}

#[test]
fn object_duplicate_key_keeps_later() {
    let result = Parser::parse::<JsonMap<JsonValue>>("{\"a\": 1, \"a\": 2}");
    assert_eq!(
        Ok(JsonMap { entries: vec![("a".to_string(), num("2"))] }),
        result
    );
}

#[test]
fn nested_records_parse() {
    let source = "{\
        \"email\": \"jane@example.com\",\
        \"phone\": \"01234567890\",\
        \"address\": {\
            \"street\": \"1 High St\",\
            \"city\": \"Springfield\",\
            \"zipcode\": \"12345\",\
            \"country\": \"GB\"\
        }\
    }";
    let result = Parser::parse::<Contact>(source);
    assert_eq!(
        Ok(Contact {
            email: "jane@example.com".to_string(),
            phone: "01234567890".to_string(),
            address: Address {
                street: "1 High St".to_string(),
                city: "Springfield".to_string(),
                zipcode: "12345".to_string(),
                country: "GB".to_string(),
            },
        }),
        result
    );
}

#[test]
fn preferences_and_history_parse() {
    let prefs = Parser::parse::<Preferences>(
        "{\"notifications\": {\"email\": true, \"sms\": false}, \"theme\": \"dark\", \"language\": \"en\"}",
    );
    assert_eq!(
        Ok(Preferences {
            notifications: Notifications { email: true, sms: false },
            theme: "dark".to_string(),
            language: "en".to_string(),
        }),
        prefs
    );

    let history = Parser::parse::<Vec<History>>(
        "[{\"login\": \"2024-01-01\", \"ip\": \"10.0.0.1\", \"success\": true}]",
    );
    assert_eq!(
        Ok(vec![History {
            login: "2024-01-01".to_string(),
            ip: "10.0.0.1".to_string(),
            success: true,
        }]),
        history
    );
}

#[test]
fn record_missing_field_order() {
    let result = Parser::parse::<Address>("{\"city\": \"Springfield\"}");
    assert_eq!(
        Err(ParserErrKind::MissingProperty("street".to_string())),
        result.map_err(|e| e.kind)
    );
}

#[test]
fn line_numbers_in_errors() {
    let result = Parser::parse::<JsonValue>("[\n1,\n2,\n]");
    assert_eq!(
        Err(ParserErr {
            kind: ParserErrKind::UnexpectedToken,
            line: 3,
            lexeme: ",".to_string(),
        }),
        result
    );
}
