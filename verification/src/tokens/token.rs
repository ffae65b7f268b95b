//! The states and tokens of a parser of logic.

use vstd::prelude::*;
use crate::tokens::operators::LogicOp;

verus! {

/// What a parser of logic holds at any moment: a token it has read, or the
/// state it is in.
#[derive(Debug, Clone, PartialEq)]
pub enum LogicToken {
    /// An operator of logic.
    LogicOperator(LogicOp),
    /// The name of a variable.
    LogicVariable(String),
    /// A parenthesis, as it was written.
    Parenthesis(String),
    /// Whitespace.
    Space,
    /// Nothing yet: the parser is reading.
    Reading,
    /// The end of the input.
    EndOfFile,
    /// An error, with its message.
    Error(String),
}

impl Default for LogicToken {
    /// A parser starts out reading.
    fn default() -> (token: LogicToken)
        ensures
            token is Reading,
    {
        LogicToken::Reading
    }
}

} // verus!
