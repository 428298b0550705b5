//! Parsing an optional value: `null` yields absence, anything else parses
//! the wrapped type. Nested optionals are well-defined: `null` always
//! yields the outermost absence.

use vstd::prelude::*;
use crate::parser::{
    spec_check, spec_consume, Parse, Parser, ParserErr, SpecParser, SpecParserErr,
};
use crate::token::{SpecTokenKind, TokenKind};

verus! {

/// `null` is consumed and yields absence; otherwise the wrapped type is
/// parsed in place.
pub open spec fn spec_parse_option<T: Parse>(st: SpecParser) -> Result<
    (Option<<T as DeepView>::V>, SpecParser),
    SpecParserErr,
> {
    match spec_check(st, SpecTokenKind::Null) {
        Err(e) => Err(e),
        Ok(true) => match spec_consume(st, SpecTokenKind::Null) {
            (Err(e), _) => Err(e),
            (Ok(_), st1) => Ok((None, st1)),
        },
        Ok(false) => match T::spec_parse(st) {
            Err(e) => Err(e),
            Ok((m, st1)) => Ok((Some(m), st1)),
        },
    }
}

impl<T: Parse> Parse for Option<T> {
    open spec fn spec_parse(st: SpecParser) -> Result<
        (Option<<T as DeepView>::V>, SpecParser),
        SpecParserErr,
    > {
        spec_parse_option::<T>(st)
    }

    fn parse(p: &mut Parser) -> (r: Result<Self, ParserErr>) {
        let is_null = match p.check(TokenKind::Null) {
            Ok(b) => b,
            Err(e) => {
                return Err(e);
            },
        };
        if is_null {
            match p.consume(TokenKind::Null) {
                Ok(_) => Ok(None),
                Err(e) => Err(e),
            }
        } else {
            match T::parse(p) {
                Ok(v) => Ok(Some(v)),
                Err(e) => Err(e),
            }
        }
    }
}

} // verus!
