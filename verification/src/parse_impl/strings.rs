//! Parsing a string: one `String`-kind token yields its already-decoded
//! value.

use vstd::prelude::*;
use crate::parser::{
    spec_advance, spec_peek, Parse, Parser, ParserErr, ParserErrKind, SpecParser, SpecParserErr,
    SpecParserErrKind,
};
use crate::token::{SpecTokenKind, TokenKind};

verus! {

/// Consuming one token that must be a string; any other kind is
/// `UnexpectedToken` anchored at the consumed token.
pub open spec fn spec_parse_string(st: SpecParser) -> Result<
    (Seq<char>, SpecParser),
    SpecParserErr,
> {
    match spec_peek(st) {
        Err(e) => Err(e),
        Ok(_) => match spec_advance(st) {
            (Err(e), _) => Err(e),
            (Ok(t), st1) => match t.kind {
                SpecTokenKind::Str(s) => Ok((s, st1)),
                _ => Err(
                    SpecParserErr {
                        kind: SpecParserErrKind::UnexpectedToken,
                        line: t.line,
                        lexeme: t.lexeme,
                    },
                ),
            },
        },
    }
}

impl Parse for String {
    open spec fn spec_parse(st: SpecParser) -> Result<(Seq<char>, SpecParser), SpecParserErr> {
        spec_parse_string(st)
    }

    /// Returns the decoded value captured by the scanner; a non-string
    /// token here was not expected.
    fn parse(p: &mut Parser) -> (r: Result<Self, ParserErr>) {
        match p.peek() {
            Err(e) => {
                return Err(e);
            },
            Ok(_) => {},
        };
        let tok = match p.advance() {
            Ok(t) => t,
            Err(e) => {
                return Err(e);
            },
        };
        match tok.kind {
            TokenKind::String(val) => Ok(val),
            _ => Err(p.make_err_prev(ParserErrKind::UnexpectedToken)),
        }
    }
}

} // verus!
