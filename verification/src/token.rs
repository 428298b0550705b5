//! The token model: the alphabet of lexical units and their source-position
//! metadata. A token records the line it started on and the exact source
//! slice (lexeme) it was produced from; a string token additionally carries
//! the decoded (unescaped) value.

use vstd::prelude::*;

verus! {

/// The kinds of lexical units of the JSON grammar. A `String` token stores
/// the unescaped, dequoted value; `Number`, `Bool` and `Null` defer value
/// interpretation to the dispatch stage.
#[derive(Debug, PartialEq)]
pub enum TokenKind {
    LCurlyBracket,
    RCurlyBracket,
    LBracket,
    RBracket,
    Colon,
    Comma,
    String(String),
    Number,
    Bool,
    Null,
}

/// The mathematical model of a token kind: the decoded value of a string
/// token is a sequence of characters.
pub enum SpecTokenKind {
    LCurlyBracket,
    RCurlyBracket,
    LBracket,
    RBracket,
    Colon,
    Comma,
    Str(Seq<char>),
    Number,
    Bool,
    Null,
}

impl View for TokenKind {
    type V = SpecTokenKind;

    open spec fn view(&self) -> SpecTokenKind {
        match self {
            TokenKind::LCurlyBracket => SpecTokenKind::LCurlyBracket,
            TokenKind::RCurlyBracket => SpecTokenKind::RCurlyBracket,
            TokenKind::LBracket => SpecTokenKind::LBracket,
            TokenKind::RBracket => SpecTokenKind::RBracket,
            TokenKind::Colon => SpecTokenKind::Colon,
            TokenKind::Comma => SpecTokenKind::Comma,
            TokenKind::String(s) => SpecTokenKind::Str(s@),
            TokenKind::Number => SpecTokenKind::Number,
            TokenKind::Bool => SpecTokenKind::Bool,
            TokenKind::Null => SpecTokenKind::Null,
        }
    }
}

impl Clone for TokenKind {
    fn clone(&self) -> (r: Self)
        ensures
            r@ == self@,
    {
        match self {
            TokenKind::LCurlyBracket => TokenKind::LCurlyBracket,
            TokenKind::RCurlyBracket => TokenKind::RCurlyBracket,
            TokenKind::LBracket => TokenKind::LBracket,
            TokenKind::RBracket => TokenKind::RBracket,
            TokenKind::Colon => TokenKind::Colon,
            TokenKind::Comma => TokenKind::Comma,
            TokenKind::String(s) => TokenKind::String(s.clone()),
            TokenKind::Number => TokenKind::Number,
            TokenKind::Bool => TokenKind::Bool,
            TokenKind::Null => TokenKind::Null,
        }
    }
}

/// Kind equality that is value-insensitive for variants carrying data: any
/// string token matches a `Str` check, whatever its decoded value.
pub open spec fn spec_same_kind(a: SpecTokenKind, b: SpecTokenKind) -> bool {
    match (a, b) {
        (SpecTokenKind::Str(_), SpecTokenKind::Str(_)) => true,
        _ => a == b,
    }
}

/// Executable kind check, value-insensitive for `String` tokens.
pub fn same_kind(a: &TokenKind, b: &TokenKind) -> (r: bool)
    ensures
        r == spec_same_kind(a@, b@),
{
    match (a, b) {
        (TokenKind::LCurlyBracket, TokenKind::LCurlyBracket) => true,
        (TokenKind::RCurlyBracket, TokenKind::RCurlyBracket) => true,
        (TokenKind::LBracket, TokenKind::LBracket) => true,
        (TokenKind::RBracket, TokenKind::RBracket) => true,
        (TokenKind::Colon, TokenKind::Colon) => true,
        (TokenKind::Comma, TokenKind::Comma) => true,
        (TokenKind::String(_), TokenKind::String(_)) => true,
        (TokenKind::Number, TokenKind::Number) => true,
        (TokenKind::Bool, TokenKind::Bool) => true,
        (TokenKind::Null, TokenKind::Null) => true,
        _ => false,
    }
}

/// A classified, position-tagged lexical unit. `line` is 1-based; `lexeme`
/// holds the exact source slice the token was produced from.
#[derive(Debug, PartialEq)]
pub struct Token {
    pub kind: TokenKind,
    pub line: usize,
    pub lexeme: String,
}

/// The mathematical model of a token.
pub struct SpecToken {
    pub kind: SpecTokenKind,
    pub line: nat,
    pub lexeme: Seq<char>,
}

impl View for Token {
    type V = SpecToken;

    open spec fn view(&self) -> SpecToken {
        SpecToken { kind: self.kind@, line: self.line as nat, lexeme: self.lexeme@ }
    }
}

impl Clone for Token {
    fn clone(&self) -> (r: Self)
        ensures
            r@ == self@,
    {
        Token { kind: self.kind.clone(), line: self.line, lexeme: self.lexeme.clone() }
    }
}

impl Token {
    /// Builds a token from its parts, copying the lexeme slice.
    pub fn init(kind: TokenKind, line: usize, lexeme: &str) -> (t: Self)
        ensures
            t@ == (SpecToken { kind: kind@, line: line as nat, lexeme: lexeme@ }),
    {
        Token { kind, line, lexeme: lexeme.to_owned() }
    }
}

} // verus!
