//! Tokenizer and structural validator for logical and mathematical
//! propositions such as `A & (B | C)` or `25.1 * 42 - 13`.
//!
//! A proposition is scanned into typed tokens by a longest-match lexer over
//! an ordered registry of recognizers, its brackets are paired, its tokens
//! are grouped into terms, and the resulting sequence is held to the
//! adjacency rules of the grammar.

pub mod error;
pub mod tokens;
pub mod lexer;
pub mod registry;
pub mod brackets;
pub mod grammar;
pub mod structure;
pub mod proposition;
pub mod circuits;
pub mod util;
pub mod ast;
pub mod parser;
pub mod tree;
pub mod proto;
