//! Parsing a string-keyed map: `{`, `"key": value` entries separated by
//! commas, `}`. The comma discipline matches sequences; a non-string key
//! is `UnexpectedToken`; a missing `:` after the key is
//! `ExpectedToken(Colon)`; a repeated key keeps the later value.

use vstd::prelude::*;
use vstd::pervasive::arbitrary;
use crate::json_value::JsonMap;
use crate::parser::{
    parse_measure, spec_advance, spec_check, spec_consume, spec_make_err_prev, Parse, Parser,
    ParserErr, ParserErrKind, SpecParser, SpecParserErr, SpecParserErrKind,
};
use crate::token::{SpecTokenKind, TokenKind};

verus! {

/// The entry loop: stop at `}` (a just-consumed comma making that the
/// trailing-comma error), else consume a string key, a colon, one value,
/// and continue behind a comma, or close. Guarded by the parsing measure.
pub open spec fn spec_parse_entries<T: Parse>(
    st: SpecParser,
    acc: Map<Seq<char>, <T as DeepView>::V>,
    had_comma: bool,
) -> Result<(Map<Seq<char>, <T as DeepView>::V>, SpecParser), SpecParserErr>
    decreases parse_measure(st),
{
    match spec_check(st, SpecTokenKind::RCurlyBracket) {
        Err(e) => Err(e),
        Ok(true) => if had_comma {
            Err(spec_make_err_prev(st, SpecParserErrKind::UnexpectedToken))
        } else {
            match spec_consume(st, SpecTokenKind::RCurlyBracket) {
                (Err(e), _) => Err(e),
                (Ok(_), st2) => Ok((acc, st2)),
            }
        },
        Ok(false) => match spec_advance(st) {
            (Err(e), _) => Err(e),
            (Ok(key), st1) => match key.kind {
                SpecTokenKind::Str(name) => match spec_consume(st1, SpecTokenKind::Colon) {
                    (Err(e), _) => Err(e),
                    (Ok(_), st2) => match T::spec_parse(st2) {
                        Err(e) => Err(e),
                        Ok((m, st3)) => match spec_check(st3, SpecTokenKind::Comma) {
                            Err(e) => Err(e),
                            Ok(true) => match spec_advance(st3) {
                                (Err(e), _) => Err(e),
                                (Ok(_), st4) => if 0 <= parse_measure(st4) < parse_measure(st) {
                                    spec_parse_entries::<T>(st4, acc.insert(name, m), true)
                                } else {
                                    arbitrary()
                                },
                            },
                            Ok(false) => match spec_consume(st3, SpecTokenKind::RCurlyBracket) {
                                (Err(e), _) => Err(e),
                                (Ok(_), st4) => Ok((acc.insert(name, m), st4)),
                            },
                        },
                    },
                },
                _ => Err(
                    SpecParserErr {
                        kind: SpecParserErrKind::UnexpectedToken,
                        line: key.line,
                        lexeme: key.lexeme,
                    },
                ),
            },
        },
    }
}

/// A string-keyed map: `{`, then the entry loop.
pub open spec fn spec_parse_object<T: Parse>(st: SpecParser) -> Result<
    (Map<Seq<char>, <T as DeepView>::V>, SpecParser),
    SpecParserErr,
> {
    match spec_consume(st, SpecTokenKind::LCurlyBracket) {
        (Err(e), _) => Err(e),
        (Ok(_), st1) => if 0 <= parse_measure(st1) < parse_measure(st) {
            spec_parse_entries::<T>(st1, Map::empty(), false)
        } else {
            arbitrary()
        },
    }
}

impl<T: Parse> Parse for JsonMap<T> {
    open spec fn spec_parse(st: SpecParser) -> Result<
        (Map<Seq<char>, <T as DeepView>::V>, SpecParser),
        SpecParserErr,
    > {
        spec_parse_object::<T>(st)
    }

    fn parse(p: &mut Parser) -> (r: Result<Self, ParserErr>) {
        let ghost st0 = p@;
        match p.consume(TokenKind::LCurlyBracket) {
            Ok(_) => {},
            Err(e) => {
                return Err(e);
            },
        };
        let mut props: JsonMap<T> = JsonMap::new();
        let mut had_comma = false;
        #[verifier::loop_isolation(false)]
        loop
            invariant
                p.wf(),
                p@.scanner.source == st0.scanner.source,
                parse_measure(p@) < parse_measure(st0),
                props.wf(),
                Self::spec_parse(st0) == spec_parse_entries::<T>(
                    p@,
                    props.deep_view(),
                    had_comma,
                ),
                had_comma ==> p@.prev is Some,
            decreases parse_measure(p@),
        {
            let at_end = match p.check(TokenKind::RCurlyBracket) {
                Ok(b) => b,
                Err(e) => {
                    return Err(e);
                },
            };
            if at_end {
                if had_comma {
                    return Err(p.make_err_prev(ParserErrKind::UnexpectedToken));
                }
                return match p.consume(TokenKind::RCurlyBracket) {
                    Ok(_) => Ok(props),
                    Err(e) => Err(e),
                };
            }
            let key = match p.advance() {
                Ok(t) => t,
                Err(e) => {
                    return Err(e);
                },
            };
            match key.kind {
                TokenKind::String(name) => {
                    match p.consume(TokenKind::Colon) {
                        Ok(_) => {},
                        Err(e) => {
                            return Err(e);
                        },
                    };
                    let value = match T::parse(p) {
                        Ok(v) => v,
                        Err(e) => {
                            return Err(e);
                        },
                    };
                    props.insert(name, value);
                    let more = match p.check(TokenKind::Comma) {
                        Ok(b) => b,
                        Err(e) => {
                            return Err(e);
                        },
                    };
                    if more {
                        match p.advance() {
                            Ok(_) => {},
                            Err(e) => {
                                return Err(e);
                            },
                        };
                        had_comma = true;
                    } else {
                        return match p.consume(TokenKind::RCurlyBracket) {
                            Ok(_) => Ok(props),
                            Err(e) => Err(e),
                        };
                    }
                },
                _ => {
                    return Err(p.make_err_prev(ParserErrKind::UnexpectedToken));
                },
            }
        }
    }
}

} // verus!
