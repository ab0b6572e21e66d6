//! A self-describing, human-editable configuration text format together with
//! a bidirectional mapping between that text and strongly typed values.
//!
//! The pipeline runs text -> lexer -> tokens -> parser -> [`expression::Expression`]
//! tree, and the serialization engine decodes such a tree into typed values
//! (or encodes values back into a tree that renders to text).

pub mod config_error;
pub mod expression;
pub mod expression_iterator;
pub mod lexer;
pub mod lexical_span;
pub mod location;
pub mod numfmt;
pub mod parser;
pub mod serialization;
pub mod strutil;

pub use vstd;
