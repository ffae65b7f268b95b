//! The lexical vocabulary: operator families, named constants, numbers and
//! the token type itself.

pub mod alphabet;
pub mod display;
pub mod numbers;
pub mod operators;
pub mod token;
pub mod variables;
