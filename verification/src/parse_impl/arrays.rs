//! Parsing a sequence: `[`, elements separated by commas, `]`. A comma
//! consumed without a following element is the trailing-comma error,
//! anchored at that comma; `[]` is the empty sequence.

use vstd::prelude::*;
use vstd::pervasive::arbitrary;
use crate::parser::{
    parse_measure, spec_advance, spec_check, spec_consume, spec_make_err_prev, Parse, Parser,
    ParserErr, ParserErrKind, SpecParser, SpecParserErr, SpecParserErrKind,
};
use crate::token::{SpecTokenKind, TokenKind};

verus! {

/// The element loop: stop at `]` (a just-consumed comma making that the
/// trailing-comma error), else parse one element and continue behind a
/// comma, or close. The recursion is guarded by the parsing measure, which
/// every step through the cursor strictly decreases.
pub open spec fn spec_parse_elements<T: Parse>(
    st: SpecParser,
    acc: Seq<<T as DeepView>::V>,
    had_comma: bool,
) -> Result<(Seq<<T as DeepView>::V>, SpecParser), SpecParserErr>
    decreases parse_measure(st),
{
    match spec_check(st, SpecTokenKind::RBracket) {
        Err(e) => Err(e),
        Ok(true) => if had_comma {
            Err(spec_make_err_prev(st, SpecParserErrKind::UnexpectedToken))
        } else {
            match spec_consume(st, SpecTokenKind::RBracket) {
                (Err(e), _) => Err(e),
                (Ok(_), st2) => Ok((acc, st2)),
            }
        },
        Ok(false) => match T::spec_parse(st) {
            Err(e) => Err(e),
            Ok((m, st1)) => match spec_check(st1, SpecTokenKind::Comma) {
                Err(e) => Err(e),
                Ok(true) => match spec_advance(st1) {
                    (Err(e), _) => Err(e),
                    (Ok(_), st2) => if 0 <= parse_measure(st2) < parse_measure(st) {
                        spec_parse_elements::<T>(st2, acc.push(m), true)
                    } else {
                        arbitrary()
                    },
                },
                Ok(false) => match spec_consume(st1, SpecTokenKind::RBracket) {
                    (Err(e), _) => Err(e),
                    (Ok(_), st2) => Ok((acc.push(m), st2)),
                },
            },
        },
    }
}

/// A sequence: `[`, then the element loop.
pub open spec fn spec_parse_array<T: Parse>(st: SpecParser) -> Result<
    (Seq<<T as DeepView>::V>, SpecParser),
    SpecParserErr,
> {
    match spec_consume(st, SpecTokenKind::LBracket) {
        (Err(e), _) => Err(e),
        (Ok(_), st1) => if parse_measure(st1) < parse_measure(st) {
            spec_parse_elements::<T>(st1, Seq::empty(), false)
        } else {
            arbitrary()
        },
    }
}

impl<T: Parse> Parse for Vec<T> {
    open spec fn spec_parse(st: SpecParser) -> Result<
        (Seq<<T as DeepView>::V>, SpecParser),
        SpecParserErr,
    > {
        spec_parse_array::<T>(st)
    }

    fn parse(p: &mut Parser) -> (r: Result<Self, ParserErr>) {
        let ghost st0 = p@;
        match p.consume(TokenKind::LBracket) {
            Ok(_) => {},
            Err(e) => {
                return Err(e);
            },
        };
        let mut elems: Vec<T> = Vec::new();
        let mut had_comma = false;
        proof {
            assert(elems.deep_view() =~= Seq::<<T as DeepView>::V>::empty());
        }
        #[verifier::loop_isolation(false)]
        loop
            invariant
                p.wf(),
                p@.scanner.source == st0.scanner.source,
                parse_measure(p@) < parse_measure(st0),
                Self::spec_parse(st0) == spec_parse_elements::<T>(
                    p@,
                    elems.deep_view(),
                    had_comma,
                ),
                had_comma ==> p@.prev is Some,
            decreases parse_measure(p@),
        {
            let ghost acch = elems.deep_view();
            let at_end = match p.check(TokenKind::RBracket) {
                Ok(b) => b,
                Err(e) => {
                    return Err(e);
                },
            };
            if at_end {
                if had_comma {
                    return Err(p.make_err_prev(ParserErrKind::UnexpectedToken));
                }
                return match p.consume(TokenKind::RBracket) {
                    Ok(_) => Ok(elems),
                    Err(e) => Err(e),
                };
            }
            let v = match T::parse(p) {
                Ok(v) => v,
                Err(e) => {
                    return Err(e);
                },
            };
            elems.push(v);
            proof {
                assert(elems.deep_view() =~= acch.push(v.deep_view()));
            }
            let more = match p.check(TokenKind::Comma) {
                Ok(b) => b,
                Err(e) => {
                    return Err(e);
                },
            };
            if more {
                match p.advance() {
                    Ok(_) => {},
                    Err(e) => {
                        return Err(e);
                    },
                };
                had_comma = true;
            } else {
                return match p.consume(TokenKind::RBracket) {
                    Ok(_) => Ok(elems),
                    Err(e) => Err(e),
                };
            }
        }
    }
}

} // verus!
