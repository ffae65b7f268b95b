//! Prototypes: base conversion, the conversion of infix notation to
//! postfix notation, and variables found by a regular expression.

pub mod base_change;
pub mod logic_notation;
pub mod patterns;
