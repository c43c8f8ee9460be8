//! Core of a jq-family filter-query engine: an immutable JSON value model
//! with fixed-point number semantics, a chained lexically-scoped evaluation
//! environment, a program-tree evaluator with generator (multi-value)
//! semantics, and the closed taxonomy of runtime errors.
//!
//! The lexer/parser for filter source text, JSON text decoding and encoding,
//! and the process driver are external collaborators and live outside this
//! library.

pub mod ast;
pub mod env;
pub mod error;
pub mod eval;
pub mod laws;
pub mod number;
pub mod ops;
pub mod sem;
pub mod value;

pub use error::QueryExecutionError;
pub use number::Number;
pub use number::SCALE;
pub use value::Value;
