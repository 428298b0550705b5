//! The implementations of the `Parse` capability: the untyped value tree,
//! the numeric families, booleans, strings, optional values, sequences and
//! string-keyed maps.

pub mod arrays;
pub mod json_value;
pub mod objects;
pub mod options;
pub mod primitives;
pub mod strings;
