//! The parser: the stage behind the lexer, which is to turn tokens into an
//! expression tree.

use vstd::prelude::*;
use crate::tokens::token::LogicToken;

verus! {

/// A parser with one token in hand and one token of lookahead.
pub struct Parser {
    current_token: LogicToken,
    peek_token: Option<LogicToken>,
}

impl Parser {
    /// The token in hand.
    pub closed spec fn current(&self) -> LogicToken {
        self.current_token
    }

    /// The token of lookahead.
    pub closed spec fn peek(&self) -> Option<LogicToken> {
        self.peek_token
    }

    /// A parser that has read nothing of `src` yet: it is reading and has
    /// no lookahead.
    pub fn new(src: &str) -> (parser: Parser)
        ensures
            parser.current() is Reading,
            parser.peek() is None,
    {
        Parser { current_token: LogicToken::default(), peek_token: None }
    }

    /// Parses the input. No grammar rule is defined yet, so every input is
    /// accepted and the parser stays as it is.
    pub fn parse(&mut self) -> (outcome: Result<(), String>)
        ensures
            outcome is Ok,
            final(self).current() == old(self).current(),
            final(self).peek() == old(self).peek(),
    {
        Ok(())
    }
}

} // verus!
