//! A verified JSON parser: a pull-based scanner turns source text into
//! position-tagged tokens, a cursor with one token of lookahead drives a
//! recursive-descent parser, and a typed dispatch layer parses either an
//! untyped value tree or statically-known record types.

pub mod chars;
pub mod json_value;
pub mod parse_impl;
pub mod parser;
pub mod records;
pub mod render;
pub mod round_trip;
pub mod scanner;
pub mod token;

pub use parser::{Parse, Parser, ParserErr, ParserErrKind};
pub use token::TokenKind;
