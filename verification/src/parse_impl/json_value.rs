//! Parsing the untyped value tree: the current token's kind selects
//! object, array, string, number, boolean or null; no other kind is valid
//! at a value position. A number is kept as its validated lexeme; a lexeme
//! with no digit in its mantissa (such as `-.` or `-e5`) is rejected.

use vstd::prelude::*;
use vstd::pervasive::arbitrary;
use crate::chars::{chars_of, digit_char, is_digit_char, str_eq_chars};
use crate::json_value::{
    lemma_elements_model_is_map, lemma_entries_map_is_assoc, spec_elements_model, spec_entries_map,
    JsonMap, JsonValue, SpecJson,
};
use crate::parser::{
    parse_measure, spec_advance, spec_check, spec_consume, spec_make_err, spec_make_err_prev, spec_peek,
    Parse, Parser, ParserErr, ParserErrKind, SpecParser, SpecParserErr, SpecParserErrKind,
};
use crate::token::{SpecTokenKind, TokenKind};

verus! {

/// A number lexeme the value tree accepts: somewhere before any exponent
/// marker stands a decimal digit. Of the lexemes the scanner shapes, this
/// excludes exactly the digitless mantissas such as `-.`, `-e5` or `-.e5`.
pub open spec fn spec_float_lexeme_ok(lex: Seq<char>) -> bool {
    exists|k: int|
        0 <= k < lex.len() && is_digit_char(lex[k]) && (forall|j: int|
            0 <= j < k ==> lex[j] != 'e' && lex[j] != 'E')
}

/// Executable test for `spec_float_lexeme_ok`.
pub fn float_lexeme_ok(s: &str) -> (r: bool)
    ensures
        r == spec_float_lexeme_ok(s@),
{
    let v = chars_of(s);
    let mut i: usize = 0;
    #[verifier::loop_isolation(false)]
    while i < v.len()
        invariant
            i <= v@.len(),
            forall|j: int| 0 <= j < i ==> !is_digit_char(v@[j]) && v@[j] != 'e' && v@[j] != 'E',
        decreases v@.len() - i,
    {
        let c = v[i];
        if digit_char(c) {
            proof {
                assert(0 <= i < s@.len() && is_digit_char(s@[i as int]) && (forall|j: int|
                    0 <= j < i ==> s@[j] != 'e' && s@[j] != 'E'));
            }
            return true;
        }
        if c == 'e' || c == 'E' {
            proof {
                assert forall|k: int|
                    0 <= k < s@.len() && is_digit_char(s@[k]) implies !(forall|j: int|
                    0 <= j < k ==> s@[j] != 'e' && s@[j] != 'E') by {
                    assert(k > i);
                    assert(s@[i as int] == 'e' || s@[i as int] == 'E');
                }
            }
            return false;
        }
        i = i + 1;
    }
    false
}

/// The element loop of a value array; mirrors the generic sequence loop
/// with value-tree elements.
pub open spec fn spec_parse_json_elements(
    st: SpecParser,
    acc: Seq<SpecJson>,
    had_comma: bool,
) -> Result<(Seq<SpecJson>, SpecParser), SpecParserErr>
    decreases parse_measure(st), 2int,
{
    match spec_check(st, SpecTokenKind::RBracket) {
        Err(e) => Err(e),
        Ok(true) => if had_comma {
            Err(spec_make_err_prev(st, SpecParserErrKind::UnexpectedToken))
        } else {
            match spec_consume(st, SpecTokenKind::RBracket) {
                (Err(e), _) => Err(e),
                (Ok(_), st2) => Ok((acc, st2)),
            }
        },
        Ok(false) => match spec_parse_json_value(st) {
            Err(e) => Err(e),
            Ok((m, st1)) => match spec_check(st1, SpecTokenKind::Comma) {
                Err(e) => Err(e),
                Ok(true) => match spec_advance(st1) {
                    (Err(e), _) => Err(e),
                    (Ok(_), st2) => if 0 <= parse_measure(st2) < parse_measure(st) {
                        spec_parse_json_elements(st2, acc.push(m), true)
                    } else {
                        arbitrary()
                    },
                },
                Ok(false) => match spec_consume(st1, SpecTokenKind::RBracket) {
                    (Err(e), _) => Err(e),
                    (Ok(_), st2) => Ok((acc.push(m), st2)),
                },
            },
        },
    }
}

/// A value array: `[`, then the element loop.
pub open spec fn spec_parse_json_array(st: SpecParser) -> Result<
    (Seq<SpecJson>, SpecParser),
    SpecParserErr,
>
    decreases parse_measure(st), 0int,
{
    match spec_consume(st, SpecTokenKind::LBracket) {
        (Err(e), _) => Err(e),
        (Ok(_), st1) => if 0 <= parse_measure(st1) < parse_measure(st) {
            spec_parse_json_elements(st1, Seq::empty(), false)
        } else {
            arbitrary()
        },
    }
}

/// The entry loop of a value object; mirrors the generic map loop with
/// value-tree entries, a repeated key keeping the later value.
pub open spec fn spec_parse_json_entries(
    st: SpecParser,
    acc: Map<Seq<char>, SpecJson>,
    had_comma: bool,
) -> Result<(Map<Seq<char>, SpecJson>, SpecParser), SpecParserErr>
    decreases parse_measure(st), 2int,
{
    match spec_check(st, SpecTokenKind::RCurlyBracket) {
        Err(e) => Err(e),
        Ok(true) => if had_comma {
            Err(spec_make_err_prev(st, SpecParserErrKind::UnexpectedToken))
        } else {
            match spec_consume(st, SpecTokenKind::RCurlyBracket) {
                (Err(e), _) => Err(e),
                (Ok(_), st2) => Ok((acc, st2)),
            }
        },
        Ok(false) => match spec_advance(st) {
            (Err(e), _) => Err(e),
            (Ok(key), st1) => match key.kind {
                SpecTokenKind::Str(name) => match spec_consume(st1, SpecTokenKind::Colon) {
                    (Err(e), _) => Err(e),
                    (Ok(_), st2) => if !(0 <= parse_measure(st2) <= parse_measure(st)) {
                        arbitrary()
                    } else {
                        match spec_parse_json_value(st2) {
                        Err(e) => Err(e),
                        Ok((m, st3)) => match spec_check(st3, SpecTokenKind::Comma) {
                            Err(e) => Err(e),
                            Ok(true) => match spec_advance(st3) {
                                (Err(e), _) => Err(e),
                                (Ok(_), st4) => if 0 <= parse_measure(st4) < parse_measure(st) {
                                    spec_parse_json_entries(st4, acc.insert(name, m), true)
                                } else {
                                    arbitrary()
                                },
                            },
                            Ok(false) => match spec_consume(st3, SpecTokenKind::RCurlyBracket) {
                                (Err(e), _) => Err(e),
                                (Ok(_), st4) => Ok((acc.insert(name, m), st4)),
                            },
                        },
                    }
                    },
                },
                _ => Err(
                    SpecParserErr {
                        kind: SpecParserErrKind::UnexpectedToken,
                        line: key.line,
                        lexeme: key.lexeme,
                    },
                ),
            },
        },
    }
}

/// A value object: `{`, then the entry loop.
pub open spec fn spec_parse_json_object(st: SpecParser) -> Result<
    (Map<Seq<char>, SpecJson>, SpecParser),
    SpecParserErr,
>
    decreases parse_measure(st), 0int,
{
    match spec_consume(st, SpecTokenKind::LCurlyBracket) {
        (Err(e), _) => Err(e),
        (Ok(_), st1) => if 0 <= parse_measure(st1) < parse_measure(st) {
            spec_parse_json_entries(st1, Map::empty(), false)
        } else {
            arbitrary()
        },
    }
}

/// One untyped value: the current token's kind selects the branch; any
/// kind that cannot begin a value is `UnexpectedToken` at that token.
pub open spec fn spec_parse_json_value(st: SpecParser) -> Result<
    (SpecJson, SpecParser),
    SpecParserErr,
>
    decreases parse_measure(st), 1int,
{
    match spec_peek(st) {
        Err(e) => Err(e),
        Ok(t) => match t.kind {
            SpecTokenKind::LCurlyBracket => match spec_parse_json_object(st) {
                Err(e) => Err(e),
                Ok((m, st1)) => Ok((SpecJson::Object(m), st1)),
            },
            SpecTokenKind::LBracket => match spec_parse_json_array(st) {
                Err(e) => Err(e),
                Ok((a, st1)) => Ok((SpecJson::Array(a), st1)),
            },
            SpecTokenKind::Str(s) => match spec_advance(st) {
                (Err(e), _) => Err(e),
                (Ok(_), st1) => Ok((SpecJson::Str(s), st1)),
            },
            SpecTokenKind::Number => match spec_advance(st) {
                (Err(e), _) => Err(e),
                (Ok(tok), st1) => if spec_float_lexeme_ok(tok.lexeme) {
                    Ok((SpecJson::Number(tok.lexeme), st1))
                } else {
                    Err(
                        SpecParserErr {
                            kind: SpecParserErrKind::InvalidNumber,
                            line: tok.line,
                            lexeme: tok.lexeme,
                        },
                    )
                },
            },
            SpecTokenKind::Bool => match spec_advance(st) {
                (Err(e), _) => Err(e),
                (Ok(tok), st1) => Ok((SpecJson::Bool(tok.lexeme == seq!['t', 'r', 'u', 'e']), st1)),
            },
            SpecTokenKind::Null => match spec_advance(st) {
                (Err(e), _) => Err(e),
                (Ok(_), st1) => Ok((SpecJson::Null, st1)),
            },
            _ => Err(spec_make_err(st, SpecParserErrKind::UnexpectedToken)),
        },
    }
}

/// One untyped value from the cursor: the current token's kind drives the
/// branch, exactly as `spec_parse_json_value` says.
pub fn parse_json_value(p: &mut Parser) -> (r: Result<JsonValue, ParserErr>)
    requires
        old(p).wf(),
    ensures
        final(p).wf(),
        final(p)@.scanner.source == old(p)@.scanner.source,
        match spec_parse_json_value(old(p)@) {
            Ok((m, st2)) => r is Ok && r->Ok_0.deep_view() == m && final(p)@ == st2
                && parse_measure(st2) < parse_measure(old(p)@),
            Err(e) => r is Err && r->Err_0@ == e,
        },
    decreases parse_measure(old(p)@), 1int,
{
    let t = match p.peek() {
        Ok(t) => t,
        Err(e) => {
            return Err(e);
        },
    };
    match t.kind {
        TokenKind::LCurlyBracket => match parse_json_object(p) {
            Ok(m) => Ok(JsonValue::Object(m)),
            Err(e) => Err(e),
        },
        TokenKind::LBracket => match parse_json_array(p) {
            Ok(a) => {
                proof {
                    lemma_elements_model_is_map(a@);
                    assert(spec_elements_model(a@) =~= a.deep_view());
                }
                Ok(JsonValue::Array(a))
            },
            Err(e) => Err(e),
        },
        TokenKind::String(_) => {
            let tok = match p.advance() {
                Ok(t) => t,
                Err(e) => {
                    return Err(e);
                },
            };
            match tok.kind {
                TokenKind::String(s) => Ok(JsonValue::String(s)),
                _ => Err(p.make_err_prev(ParserErrKind::UnexpectedToken)),
            }
        },
        TokenKind::Number => {
            let tok = match p.advance() {
                Ok(t) => t,
                Err(e) => {
                    return Err(e);
                },
            };
            if float_lexeme_ok(tok.lexeme.as_str()) {
                Ok(JsonValue::Number(tok.lexeme))
            } else {
                Err(p.make_err_prev(ParserErrKind::InvalidNumber))
            }
        },
        TokenKind::Bool => {
            let tok = match p.advance() {
                Ok(t) => t,
                Err(e) => {
                    return Err(e);
                },
            };
            let kw_true = ['t', 'r', 'u', 'e'];
            proof {
                assert(kw_true@ =~= seq!['t', 'r', 'u', 'e']);
            }
            Ok(JsonValue::Bool(str_eq_chars(tok.lexeme.as_str(), &kw_true)))
        },
        TokenKind::Null => {
            match p.advance() {
                Ok(_) => Ok(JsonValue::Null),
                Err(e) => Err(e),
            }
        },
        _ => Err(p.make_err(ParserErrKind::UnexpectedToken)),
    }
}

/// A value array as a vector of values.
pub fn parse_json_array(p: &mut Parser) -> (r: Result<Vec<JsonValue>, ParserErr>)
    requires
        old(p).wf(),
    ensures
        final(p).wf(),
        final(p)@.scanner.source == old(p)@.scanner.source,
        match spec_parse_json_array(old(p)@) {
            Ok((m, st2)) => r is Ok && spec_elements_model(r->Ok_0@) == m && final(p)@ == st2
                && parse_measure(st2) < parse_measure(old(p)@),
            Err(e) => r is Err && r->Err_0@ == e,
        },
    decreases parse_measure(old(p)@), 0int,
{
    let ghost st0 = p@;
    match p.consume(TokenKind::LBracket) {
        Ok(_) => {},
        Err(e) => {
            return Err(e);
        },
    };
    let mut elems: Vec<JsonValue> = Vec::new();
    let mut had_comma = false;
    proof {
        assert(spec_elements_model(elems@) =~= Seq::<SpecJson>::empty());
    }
    #[verifier::loop_isolation(false)]
    loop
        invariant
            p.wf(),
            p@.scanner.source == st0.scanner.source,
            parse_measure(p@) < parse_measure(st0),
            spec_parse_json_array(st0) == spec_parse_json_elements(
                p@,
                spec_elements_model(elems@),
                had_comma,
            ),
            had_comma ==> p@.prev is Some,
        decreases parse_measure(p@),
    {
        let ghost acch = spec_elements_model(elems@);
        let at_end = match p.check(TokenKind::RBracket) {
            Ok(b) => b,
            Err(e) => {
                return Err(e);
            },
        };
        if at_end {
            if had_comma {
                return Err(p.make_err_prev(ParserErrKind::UnexpectedToken));
            }
            return match p.consume(TokenKind::RBracket) {
                Ok(_) => Ok(elems),
                Err(e) => Err(e),
            };
        }
        let v = match parse_json_value(p) {
            Ok(v) => v,
            Err(e) => {
                return Err(e);
            },
        };
        let ghost elems_pre = elems@;
        elems.push(v);
        proof {
            assert(elems@.drop_last() =~= elems_pre);
            assert(elems@.last() == v);
            assert(spec_elements_model(elems@) == spec_elements_model(elems_pre).push(
                v.deep_view(),
            ));
        }
        let more = match p.check(TokenKind::Comma) {
            Ok(b) => b,
            Err(e) => {
                return Err(e);
            },
        };
        if more {
            match p.advance() {
                Ok(_) => {},
                Err(e) => {
                    return Err(e);
                },
            };
            had_comma = true;
        } else {
            return match p.consume(TokenKind::RBracket) {
                Ok(_) => Ok(elems),
                Err(e) => Err(e),
            };
        }
    }
}

/// A value object as a string-keyed map of values.
pub fn parse_json_object(p: &mut Parser) -> (r: Result<JsonMap<JsonValue>, ParserErr>)
    requires
        old(p).wf(),
    ensures
        final(p).wf(),
        final(p)@.scanner.source == old(p)@.scanner.source,
        match spec_parse_json_object(old(p)@) {
            Ok((m, st2)) => r is Ok && r->Ok_0.wf() && spec_entries_map(r->Ok_0.entries@) == m
                && final(p)@ == st2 && parse_measure(st2) < parse_measure(old(p)@),
            Err(e) => r is Err && r->Err_0@ == e,
        },
    decreases parse_measure(old(p)@), 0int,
{
    let ghost st0 = p@;
    match p.consume(TokenKind::LCurlyBracket) {
        Ok(_) => {},
        Err(e) => {
            return Err(e);
        },
    };
    let mut props: JsonMap<JsonValue> = JsonMap::new();
    let mut had_comma = false;
    proof {
        lemma_entries_map_is_assoc(props.entries@);
    }
    #[verifier::loop_isolation(false)]
    loop
        invariant
            p.wf(),
            p@.scanner.source == st0.scanner.source,
            parse_measure(p@) < parse_measure(st0),
            props.wf(),
            spec_parse_json_object(st0) == spec_parse_json_entries(
                p@,
                spec_entries_map(props.entries@),
                had_comma,
            ),
            had_comma ==> p@.prev is Some,
        decreases parse_measure(p@),
    {
        let at_end = match p.check(TokenKind::RCurlyBracket) {
            Ok(b) => b,
            Err(e) => {
                return Err(e);
            },
        };
        if at_end {
            if had_comma {
                return Err(p.make_err_prev(ParserErrKind::UnexpectedToken));
            }
            return match p.consume(TokenKind::RCurlyBracket) {
                Ok(_) => Ok(props),
                Err(e) => Err(e),
            };
        }
        let key = match p.advance() {
            Ok(t) => t,
            Err(e) => {
                return Err(e);
            },
        };
        match key.kind {
            TokenKind::String(name) => {
                match p.consume(TokenKind::Colon) {
                    Ok(_) => {},
                    Err(e) => {
                        return Err(e);
                    },
                };
                let value = match parse_json_value(p) {
                    Ok(v) => v,
                    Err(e) => {
                        return Err(e);
                    },
                };
                proof {
                    lemma_entries_map_is_assoc(props.entries@);
                }
                let ghost props_pre = props;
                props.insert(name, value);
                proof {
                    lemma_entries_map_is_assoc(props.entries@);
                }
                let more = match p.check(TokenKind::Comma) {
                    Ok(b) => b,
                    Err(e) => {
                        return Err(e);
                    },
                };
                if more {
                    match p.advance() {
                        Ok(_) => {},
                        Err(e) => {
                            return Err(e);
                        },
                    };
                    had_comma = true;
                } else {
                    return match p.consume(TokenKind::RCurlyBracket) {
                        Ok(_) => Ok(props),
                        Err(e) => Err(e),
                    };
                }
            },
            _ => {
                return Err(p.make_err_prev(ParserErrKind::UnexpectedToken));
            },
        }
    }
}

impl Parse for JsonValue {
    open spec fn spec_parse(st: SpecParser) -> Result<(SpecJson, SpecParser), SpecParserErr> {
        spec_parse_json_value(st)
    }

    fn parse(p: &mut Parser) -> (r: Result<Self, ParserErr>) {
        parse_json_value(p)
    }
}

} // verus!
