//! Lexical analysis for a small scripting language: source text in,
//! classified and positioned tokens out, with every malformed form reported
//! as a token kind of its own rather than as a failure.

pub mod error;
pub mod grammar;
pub mod lexer;
pub mod token;
pub mod unicode;
