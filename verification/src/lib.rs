//! A tree-walking interpreter for a small dynamically typed scripting
//! language: source text is scanned into tokens, parsed by recursive descent
//! into an abstract syntax tree, and evaluated directly against a stack of
//! lexical scopes.
//!
//! Numbers are IEEE-754 binary64 values carried as their bit patterns; the
//! arithmetic itself is delegated to a software float implementation behind
//! trusted wrappers in [`num`].

pub mod ast;
pub mod env;
pub mod error;
pub mod expr;
pub mod grammar;
pub mod interpreter;
pub mod num;
pub mod parser;
pub mod token;
