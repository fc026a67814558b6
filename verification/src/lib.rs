//! The front end of a small ECMAScript-like language: a lexer, a
//! recursive-descent parser that builds a syntax tree, and the coercion rules
//! of its arithmetic operators.

pub mod coercion;
pub mod errors;
pub mod token;
pub mod tree;
pub mod tokenizer;
pub mod stream;
pub mod grammar;
pub mod parser;
pub mod shape;
