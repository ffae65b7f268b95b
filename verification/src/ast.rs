//! The source of a proposition with its table of tokens, one token for
//! each character, read in the vocabulary of logic.

use vstd::prelude::*;
use crate::brackets::{char_marks, check_char_brackets, pairing};
use crate::error::AppError;
use crate::grammar::{entries, Entry, TokenOrTerm};
use crate::lexer::{normalize, normalized};
use crate::proposition::{check_tokens, checked};
use crate::structure::StartRule;
use crate::tokens::alphabet::{OperatorFamily, Token};

verus! {

/// The tokens of `src`, one for each character, with operators read as
/// those of logic.
pub open spec fn classified(src: Seq<char>) -> Seq<Token> {
    src.map_values(|c: char| Token::classify(c, OperatorFamily::Logic))
}

/// A source text, its table of tokens and, once the source has been
/// parsed, its grouped sequence.
pub struct Ast {
    src: Vec<char>,
    token_table: Vec<Token>,
    grouped: Vec<TokenOrTerm>,
}

impl Ast {
    /// The normalized source.
    pub closed spec fn source(&self) -> Seq<char> {
        self.src@
    }

    /// The normalized source.
    pub fn src(&self) -> (chars: &Vec<char>)
        ensures
            chars@ == self.source(),
    {
        &self.src
    }

    /// The table of tokens that was made when the value was built.
    pub closed spec fn token_table(&self) -> Seq<Token> {
        self.token_table@
    }

    /// The grouped sequence that the last successful parse made; empty
    /// before any.
    pub closed spec fn grouping(&self) -> Seq<Entry> {
        entries(self.grouped@)
    }

    /// Strips whitespace and ASCII control characters from `src` and
    /// classifies every character that is left. Nothing is grouped yet.
    pub fn new(src: &str) -> (ast: Ast)
        ensures
            ast.source() == normalized(src@),
            ast.token_table() == classified(normalized(src@)),
            ast.grouping() == Seq::<Entry>::empty(),
    {
        let trimmed = normalize(src);
        let token_table = Ast::get_token_table(&trimmed);
        let ast = Ast { src: trimmed, token_table, grouped: Vec::new() };
        assert(ast.grouping() =~= Seq::<Entry>::empty());
        ast
    }

    /// Classifies every character of `src` on its own: a bracket, a
    /// variable, a digit, an underscore, a dot, an operator of logic, or an
    /// invalid character.
    pub fn get_token_table(src: &Vec<char>) -> (tokens: Vec<Token>)
        ensures
            tokens@ == classified(src@),
    {
        let mut tokens: Vec<Token> = Vec::new();
        let mut i: usize = 0;
        while i < src.len()
            invariant
                0 <= i <= src@.len(),
                tokens@ == classified(src@.take(i as int)),
            decreases src@.len() - i,
        {
            tokens.push(Token::from(src[i], OperatorFamily::Logic));
            assert(tokens@ =~= classified(src@.take(i + 1)));
            i = i + 1;
        }
        assert(src@.take(src@.len() as int) == src@);
        tokens
    }

    /// The table of tokens that was made when the value was built.
    pub fn tokens(&self) -> (tokens: &Vec<Token>)
        ensures
            tokens@ == self.token_table(),
    {
        &self.token_table
    }

    /// The grouped sequence that the last successful parse made; empty
    /// before any.
    pub fn terms(&self) -> (terms: &Vec<TokenOrTerm>)
        ensures
            entries(terms@) == self.grouping(),
    {
        &self.grouped
    }

    /// Checks the table of tokens before any tree is built from it, and
    /// stops at the first error. An invalid token is rejected with its
    /// position; then the brackets are paired, an operand is looked for,
    /// the tokens are grouped into terms, and the grouped sequence is held
    /// to the adjacency rules, where it may start with an opening bracket,
    /// a digit or a term. On success the grouped sequence is kept; on an
    /// error the value stays as it was.
    pub fn parse(&mut self) -> (outcome: Result<(), AppError>)
        ensures
            final(self).source() == old(self).source(),
            final(self).token_table() == old(self).token_table(),
            match outcome {
                Ok(_) => checked(old(self).token_table(), StartRule::BracketOrOperand) == Ok::<
                    Seq<Entry>,
                    AppError,
                >(final(self).grouping()),
                Err(error) => checked(old(self).token_table(), StartRule::BracketOrOperand)
                    == Err::<Seq<Entry>, AppError>(error) && final(self).grouping() == old(
                    self,
                ).grouping(),
            },
    {
        match check_tokens(self.token_table.as_slice(), StartRule::BracketOrOperand) {
            Ok(grouped) => {
                self.grouped = grouped;
                Ok(())
            },
            Err(error) => Err(error),
        }
    }

    /// Checks that the brackets of the source pair up and close in the
    /// order in which they were opened: parentheses, square brackets, curly
    /// brackets and chevrons.
    pub fn check_pair_brackets(&mut self) -> (outcome: Result<(), AppError>)
        ensures
            outcome == pairing(char_marks(old(self).source())),
            final(self).source() == old(self).source(),
            final(self).token_table() == old(self).token_table(),
    {
        check_char_brackets(self.src.as_slice())
    }
}

} // verus!
