//! The cursor-based parser: one token of lookahead plus the previously
//! consumed token, `advance`/`peek`/`check`/`consume` primitives, error
//! construction helpers, and the generic dispatch capability `Parse` that
//! lets one recursive-descent engine parse many result types.

use vstd::prelude::*;
use vstd::pervasive::unreached;
use crate::scanner::{
    lemma_next_token_progress, spec_next_token, spec_scanner_wf, spec_skip_whitespace, Scanner,
    ScannerErr, ScannerErrKind, SpecScanErr, SpecScanResult, SpecScanner,
};
use crate::token::{spec_same_kind, same_kind, SpecToken, SpecTokenKind, Token, TokenKind};

verus! {

/// A parse error: its kind, the 1-based line it arose on, and the exact
/// offending source text.
#[derive(Debug, PartialEq)]
pub struct ParserErr {
    pub kind: ParserErrKind,
    pub line: usize,
    pub lexeme: String,
}

/// The kinds of parse errors: lexical kinds forwarded from the scanner,
/// grammar kinds, schema kinds, and the shared end-of-source kind.
#[derive(Debug, PartialEq)]
pub enum ParserErrKind {
    UnterminatedString,
    UnrecognisedSymbol,
    UnrecognisedLiteral,
    InvalidNumber,
    InvalidEscapeSequence,
    ExpectedEndOfSource,
    ExpectedToken(TokenKind),
    UnexpectedToken,
    UnknownProperty,
    MissingProperty(String),
    UnexpectedEndOfSource,
}

/// The mathematical model of a parse error kind.
pub enum SpecParserErrKind {
    UnterminatedString,
    UnrecognisedSymbol,
    UnrecognisedLiteral,
    InvalidNumber,
    InvalidEscapeSequence,
    ExpectedEndOfSource,
    ExpectedToken(SpecTokenKind),
    UnexpectedToken,
    UnknownProperty,
    MissingProperty(Seq<char>),
    UnexpectedEndOfSource,
}

impl View for ParserErrKind {
    type V = SpecParserErrKind;

    open spec fn view(&self) -> SpecParserErrKind {
        match self {
            ParserErrKind::UnterminatedString => SpecParserErrKind::UnterminatedString,
            ParserErrKind::UnrecognisedSymbol => SpecParserErrKind::UnrecognisedSymbol,
            ParserErrKind::UnrecognisedLiteral => SpecParserErrKind::UnrecognisedLiteral,
            ParserErrKind::InvalidNumber => SpecParserErrKind::InvalidNumber,
            ParserErrKind::InvalidEscapeSequence => SpecParserErrKind::InvalidEscapeSequence,
            ParserErrKind::ExpectedEndOfSource => SpecParserErrKind::ExpectedEndOfSource,
            ParserErrKind::ExpectedToken(k) => SpecParserErrKind::ExpectedToken(k@),
            ParserErrKind::UnexpectedToken => SpecParserErrKind::UnexpectedToken,
            ParserErrKind::UnknownProperty => SpecParserErrKind::UnknownProperty,
            ParserErrKind::MissingProperty(name) => SpecParserErrKind::MissingProperty(name@),
            ParserErrKind::UnexpectedEndOfSource => SpecParserErrKind::UnexpectedEndOfSource,
        }
    }
}

/// The mathematical model of a parse error.
pub struct SpecParserErr {
    pub kind: SpecParserErrKind,
    pub line: nat,
    pub lexeme: Seq<char>,
}

impl View for ParserErr {
    type V = SpecParserErr;

    open spec fn view(&self) -> SpecParserErr {
        SpecParserErr { kind: self.kind@, line: self.line as nat, lexeme: self.lexeme@ }
    }
}

/// The parse-error kind a lexical error kind maps to; the mapping is one to
/// one, the scanner's `UnrecognisedKeyword` surfacing as
/// `UnrecognisedLiteral`.
pub open spec fn spec_kind_of_scan(kind: ScannerErrKind) -> SpecParserErrKind {
    match kind {
        ScannerErrKind::UnexpectedEndOfSource => SpecParserErrKind::UnexpectedEndOfSource,
        ScannerErrKind::UnterminatedString => SpecParserErrKind::UnterminatedString,
        ScannerErrKind::UnrecognisedSymbol => SpecParserErrKind::UnrecognisedSymbol,
        ScannerErrKind::UnrecognisedKeyword => SpecParserErrKind::UnrecognisedLiteral,
        ScannerErrKind::InvalidNumber => SpecParserErrKind::InvalidNumber,
        ScannerErrKind::InvalidEscapeSequence => SpecParserErrKind::InvalidEscapeSequence,
    }
}

/// The parse error a lexical error maps to: same position, same lexeme.
pub open spec fn spec_err_of_scan(e: SpecScanErr) -> SpecParserErr {
    SpecParserErr { kind: spec_kind_of_scan(e.kind), line: e.line, lexeme: e.lexeme }
}

impl From<ScannerErr> for ParserErr {
    /// Converts a lexical error into the equivalent parse error.
    fn from(err: ScannerErr) -> (r: Self) {
        let kind = match err.kind {
            ScannerErrKind::UnexpectedEndOfSource => ParserErrKind::UnexpectedEndOfSource,
            ScannerErrKind::UnterminatedString => ParserErrKind::UnterminatedString,
            ScannerErrKind::UnrecognisedSymbol => ParserErrKind::UnrecognisedSymbol,
            ScannerErrKind::UnrecognisedKeyword => ParserErrKind::UnrecognisedLiteral,
            ScannerErrKind::InvalidNumber => ParserErrKind::InvalidNumber,
            ScannerErrKind::InvalidEscapeSequence => ParserErrKind::InvalidEscapeSequence,
        };
        ParserErr { line: err.line, lexeme: err.lexeme, kind }
    }
}

impl vstd::std_specs::convert::FromSpecImpl<ScannerErr> for ParserErr {
    open spec fn obeys_from_spec() -> bool {
        true
    }

    open spec fn from_spec(err: ScannerErr) -> ParserErr {
        ParserErr {
            kind: match err.kind {
                ScannerErrKind::UnexpectedEndOfSource => ParserErrKind::UnexpectedEndOfSource,
                ScannerErrKind::UnterminatedString => ParserErrKind::UnterminatedString,
                ScannerErrKind::UnrecognisedSymbol => ParserErrKind::UnrecognisedSymbol,
                ScannerErrKind::UnrecognisedKeyword => ParserErrKind::UnrecognisedLiteral,
                ScannerErrKind::InvalidNumber => ParserErrKind::InvalidNumber,
                ScannerErrKind::InvalidEscapeSequence => ParserErrKind::InvalidEscapeSequence,
            },
            line: err.line,
            lexeme: err.lexeme,
        }
    }
}

/// The parser state: the scanner it pulls from, the previously consumed
/// token, and the current (lookahead) token.
#[derive(Debug)]
pub struct Parser {
    pub scanner: Scanner,
    pub prev: Option<Token>,
    pub current: Option<Token>,
}

/// The mathematical model of the parser state.
pub struct SpecParser {
    pub scanner: SpecScanner,
    pub prev: Option<SpecToken>,
    pub current: Option<SpecToken>,
}

impl View for Parser {
    type V = SpecParser;

    open spec fn view(&self) -> SpecParser {
        SpecParser {
            scanner: self.scanner@,
            prev: match self.prev {
                Some(t) => Some(t@),
                None => None,
            },
            current: match self.current {
                Some(t) => Some(t@),
                None => None,
            },
        }
    }
}

/// Well-formedness of a parser state.
pub open spec fn spec_parser_wf(st: SpecParser) -> bool {
    spec_scanner_wf(st.scanner)
}

/// The parsing measure: characters the scanner has not consumed yet, plus
/// one for a pending lookahead token. Every token consumption strictly
/// decreases it, which bounds the recursion of the grammar.
pub open spec fn parse_measure(st: SpecParser) -> int {
    st.scanner.source.len() - st.scanner.current + if st.current is Some {
        1int
    } else {
        0int
    }
}

/// Error construction: prefer the current token's position and lexeme, fall
/// back to the previous token when the input is exhausted, and to the
/// scanner's line with an empty lexeme when no token was ever seen.
pub open spec fn spec_make_err(st: SpecParser, kind: SpecParserErrKind) -> SpecParserErr {
    if st.current is Some {
        SpecParserErr { kind, line: st.current->0.line, lexeme: st.current->0.lexeme }
    } else if st.prev is Some {
        SpecParserErr { kind, line: st.prev->0.line, lexeme: st.prev->0.lexeme }
    } else {
        SpecParserErr { kind, line: st.scanner.line, lexeme: Seq::empty() }
    }
}

/// An error anchored at the previously consumed token.
pub open spec fn spec_make_err_prev(st: SpecParser, kind: SpecParserErrKind) -> SpecParserErr {
    SpecParserErr { kind, line: st.prev->0.line, lexeme: st.prev->0.lexeme }
}

/// The current token, or `UnexpectedEndOfSource` when none remains.
pub open spec fn spec_peek(st: SpecParser) -> Result<SpecToken, SpecParserErr> {
    match st.current {
        Some(t) => Ok(t),
        None => Err(spec_make_err(st, SpecParserErrKind::UnexpectedEndOfSource)),
    }
}

/// Consuming the current token: it becomes the previous token and a new
/// lookahead is pulled from the scanner, whose lexical errors propagate
/// converted. Meaningful only when a current token exists.
pub open spec fn spec_advance(st: SpecParser) -> (Result<SpecToken, SpecParserErr>, SpecParser)
    recommends
        st.current is Some,
{
    let taken = st.current->0;
    match spec_next_token(st.scanner.source, st.scanner.current, st.scanner.line) {
        SpecScanResult::End { i, line } => (
            Ok(taken),
            SpecParser {
                scanner: SpecScanner {
                    source: st.scanner.source,
                    token_start: st.scanner.token_start,
                    current: i,
                    line,
                },
                prev: st.current,
                current: None,
            },
        ),
        SpecScanResult::Tok { t, i } => (
            Ok(taken),
            SpecParser {
                scanner: SpecScanner {
                    source: st.scanner.source,
                    token_start: spec_skip_whitespace(
                        st.scanner.source,
                        st.scanner.current,
                        st.scanner.line,
                    ).0,
                    current: i,
                    line: t.line,
                },
                prev: st.current,
                current: Some(t),
            },
        ),
        SpecScanResult::Fail { e } => (
            Err(spec_err_of_scan(e)),
            SpecParser { scanner: st.scanner, prev: st.current, current: st.current },
        ),
    }
}

/// Consuming a token of the given kind: the current token when its kind
/// matches, else `ExpectedToken` anchored at the current position.
pub open spec fn spec_consume(st: SpecParser, kind: SpecTokenKind) -> (
    Result<SpecToken, SpecParserErr>,
    SpecParser,
) {
    match spec_peek(st) {
        Err(e) => (Err(e), st),
        Ok(t) => if spec_same_kind(t.kind, kind) {
            spec_advance(st)
        } else {
            (Err(spec_make_err(st, SpecParserErrKind::ExpectedToken(kind))), st)
        },
    }
}

/// Whether the current token has the given kind; value-insensitive for
/// variants carrying data.
pub open spec fn spec_check(st: SpecParser, kind: SpecTokenKind) -> Result<bool, SpecParserErr> {
    match spec_peek(st) {
        Ok(t) => Ok(spec_same_kind(t.kind, kind)),
        Err(e) => Err(e),
    }
}

impl Parser {
    /// Well-formedness of the parser.
    pub open spec fn wf(&self) -> bool {
        spec_parser_wf(self@)
    }

    /// An error anchored at the current token, falling back to the previous
    /// token when the input is exhausted.
    pub fn make_err(&self, kind: ParserErrKind) -> (r: ParserErr)
        ensures
            r@ == spec_make_err(self@, kind@),
    {
        match &self.current {
            Some(t) => ParserErr { kind, line: t.line, lexeme: t.lexeme.clone() },
            None => match &self.prev {
                Some(t) => ParserErr { kind, line: t.line, lexeme: t.lexeme.clone() },
                None => ParserErr { kind, line: self.scanner.line, lexeme: String::new() },
            },
        }
    }

    /// An error anchored at the given token.
    pub fn make_err_from_token(&self, kind: ParserErrKind, token: &Token) -> (r: ParserErr)
        ensures
            r@ == (SpecParserErr { kind: kind@, line: token@.line, lexeme: token@.lexeme }),
    {
        ParserErr { kind, line: token.line, lexeme: token.lexeme.clone() }
    }

    /// An error anchored at the previously consumed token; used when the
    /// offending token was just consumed, as for a trailing comma.
    pub fn make_err_prev(&self, kind: ParserErrKind) -> (r: ParserErr)
        requires
            self@.prev is Some,
        ensures
            r@ == spec_make_err_prev(self@, kind@),
    {
        match &self.prev {
            Some(t) => ParserErr { kind, line: t.line, lexeme: t.lexeme.clone() },
            None => ParserErr { kind, line: self.scanner.line, lexeme: String::new() },
        }
    }

    /// The current token, or `UnexpectedEndOfSource` when none remains.
    pub fn peek(&self) -> (r: Result<Token, ParserErr>)
        ensures
            match spec_peek(self@) {
                Ok(t) => r is Ok && r->Ok_0@ == t,
                Err(e) => r is Err && r->Err_0@ == e,
            },
    {
        match &self.current {
            Some(t) => Ok(t.clone()),
            None => Err(self.make_err(ParserErrKind::UnexpectedEndOfSource)),
        }
    }

    /// Whether the current token has the given kind.
    pub fn check(&self, kind: TokenKind) -> (r: Result<bool, ParserErr>)
        ensures
            match spec_check(self@, kind@) {
                Ok(b) => r is Ok && r->Ok_0 == b,
                Err(e) => r is Err && r->Err_0@ == e,
            },
    {
        match &self.current {
            Some(t) => Ok(same_kind(&t.kind, &kind)),
            None => Err(self.make_err(ParserErrKind::UnexpectedEndOfSource)),
        }
    }

    /// Moves the current token into the previous slot, pulls a new current
    /// token from the scanner, and returns the token that is now previous.
    /// Calling it with no current token would be an internal fault, so that
    /// state is excluded.
    pub fn advance(&mut self) -> (r: Result<Token, ParserErr>)
        requires
            old(self).wf(),
            old(self)@.current is Some,
        ensures
            final(self).wf(),
            final(self)@.scanner.source == old(self)@.scanner.source,
            final(self)@.prev == old(self)@.current,
            match spec_advance(old(self)@) {
                (Ok(t), st2) => r is Ok && r->Ok_0@ == t && final(self)@ == st2 && parse_measure(
                    st2,
                ) < parse_measure(old(self)@),
                (Err(e), _) => r is Err && r->Err_0@ == e && final(self)@.current == old(
                    self,
                )@.current,
            },
    {
        proof {
            lemma_next_token_progress(
                self@.scanner.source,
                self@.scanner.current,
                self@.scanner.line,
            );
        }
        let taken = match &self.current {
            Some(t) => t.clone(),
            None => unreached(),
        };
        self.prev = Some(taken.clone());
        match self.scanner.next_token() {
            Ok(next) => {
                self.current = next;
                Ok(taken)
            },
            Err(e) => Err(ParserErr::from(e)),
        }
    }

    /// Consumes and returns the current token when its kind matches `kind`,
    /// else fails with `ExpectedToken(kind)` at the current position.
    pub fn consume(&mut self, kind: TokenKind) -> (r: Result<Token, ParserErr>)
        requires
            old(self).wf(),
        ensures
            final(self).wf(),
            final(self)@.scanner.source == old(self)@.scanner.source,
            match spec_consume(old(self)@, kind@) {
                (Ok(t), st2) => r is Ok && r->Ok_0@ == t && final(self)@ == st2 && parse_measure(
                    st2,
                ) < parse_measure(old(self)@),
                (Err(e), _) => r is Err && r->Err_0@ == e,
            },
    {
        let matches_kind = match self.check(kind.clone()) {
            Ok(b) => b,
            Err(e) => {
                return Err(e);
            },
        };
        if matches_kind {
            self.advance()
        } else {
            Err(self.make_err(ParserErrKind::ExpectedToken(kind)))
        }
    }

    /// The previously consumed token. Asking for it before any token was
    /// consumed would be an internal fault, so that state is excluded.
    pub fn previous(&self) -> (t: Token)
        requires
            self@.prev is Some,
        ensures
            t@ == self@.prev->0,
    {
        match &self.prev {
            Some(t) => t.clone(),
            None => unreached(),
        }
    }
}

} // verus!

verus! {

/// The capability "parse a value of type `T` from the cursor", implemented
/// for the untyped value tree, the primitive families, optional values,
/// sequences, string-keyed maps, and record types. One recursive-descent
/// engine serves them all, selected by the statically requested type.
pub trait Parse: Sized + DeepView {
    /// The mathematical parse function for this result type: from a parser
    /// state, the parsed model value and the state after it, or the error.
    spec fn spec_parse(st: SpecParser) -> Result<
        (<Self as DeepView>::V, SpecParser),
        SpecParserErr,
    >;

    /// Parses one value of this type from the cursor: exact with respect to
    /// `spec_parse`, and consuming at least one token on success.
    fn parse(p: &mut Parser) -> (r: Result<Self, ParserErr>)
        requires
            old(p).wf(),
        ensures
            final(p).wf(),
            final(p)@.scanner.source == old(p)@.scanner.source,
            match Self::spec_parse(old(p)@) {
                Ok((m, st2)) => r is Ok && r->Ok_0.deep_view() == m && final(p)@ == st2
                    && parse_measure(st2) < parse_measure(old(p)@),
                Err(e) => r is Err && r->Err_0@ == e,
            },
    ;
}

/// The parser state after priming the cursor with the first token of
/// `source`, or the lexical error that produced instead.
pub open spec fn spec_primed_parser(source: Seq<char>) -> Result<SpecParser, SpecParserErr> {
    match spec_next_token(source, 0, 1) {
        SpecScanResult::Fail { e } => Err(spec_err_of_scan(e)),
        SpecScanResult::End { i, line } => Ok(
            SpecParser {
                scanner: SpecScanner { source, token_start: 0, current: i, line },
                prev: None,
                current: None,
            },
        ),
        SpecScanResult::Tok { t, i } => Ok(
            SpecParser {
                scanner: SpecScanner {
                    source,
                    token_start: spec_skip_whitespace(source, 0, 1).0,
                    current: i,
                    line: t.line,
                },
                prev: None,
                current: Some(t),
            },
        ),
    }
}

/// Parsing a whole source as one value of type `T`: prime the cursor,
/// dispatch on `T`, then require the cursor to be exhausted — any leftover
/// token is `ExpectedEndOfSource`. No partial parse succeeds silently.
pub open spec fn spec_parse_source<T: Parse>(source: Seq<char>) -> Result<
    <T as DeepView>::V,
    SpecParserErr,
> {
    match spec_primed_parser(source) {
        Err(e) => Err(e),
        Ok(st0) => match T::spec_parse(st0) {
            Err(e) => Err(e),
            Ok((m, st1)) => if st1.current is Some {
                Err(spec_make_err(st1, SpecParserErrKind::ExpectedEndOfSource))
            } else {
                Ok(m)
            },
        },
    }
}

impl Parser {
    /// The sole entrypoint: parses `source` as exactly one value of type
    /// `T`, returning it or the first error met anywhere in the descent.
    pub fn parse<T: Parse>(source: &str) -> (r: Result<T, ParserErr>)
        requires
            source@.len() < usize::MAX,
        ensures
            match spec_parse_source::<T>(source@) {
                Ok(m) => r is Ok && r->Ok_0.deep_view() == m,
                Err(e) => r is Err && r->Err_0@ == e,
            },
    {
        let mut scanner = Scanner::init(source);
        let current = match scanner.next_token() {
            Ok(c) => c,
            Err(e) => {
                return Err(ParserErr::from(e));
            },
        };
        let mut parser = Parser { scanner, current, prev: None };
        let result = match T::parse(&mut parser) {
            Ok(v) => v,
            Err(e) => {
                return Err(e);
            },
        };
        if parser.current.is_some() {
            return Err(parser.make_err(ParserErrKind::ExpectedEndOfSource));
        }
        Ok(result)
    }
}

} // verus!
