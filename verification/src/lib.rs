//! A front end for a small scripting language: a scanner that turns source text
//! into classified tokens, a recursive-descent parser for literal and grouping
//! expressions, and a printer that renders the syntax tree in canonical form.
//!
//! Number literals are carried as text. The scanner keeps the literal exactly as
//! written; the printed form of its value is supplied by the caller when raw
//! tokens are converted for the parser.

pub mod ast;
pub mod diag;
pub mod laws;
pub mod parser;
pub mod scanner;
pub mod text;
pub mod token;
