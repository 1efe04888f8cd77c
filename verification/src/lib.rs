//! Front end of a small tree-walking language: a lexical scanner that turns
//! source text into a line-accurate token stream with accumulated diagnostics,
//! an expression tree with a visitor dispatch protocol, a reference visitor
//! that renders trees as fully parenthesized prefix text, and a build-time
//! generator that derives the node types and the visitor contract from a
//! compact grammar description.

pub mod chars;
pub mod error;
pub mod expr;
pub mod generator;
pub mod lexing;
pub mod printer;
pub mod scanner;
pub mod token;
