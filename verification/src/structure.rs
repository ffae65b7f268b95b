//! The structure validator: the adjacency rules that a grouped sequence
//! must meet before an expression tree is built from it.

use vstd::prelude::*;
use crate::error::AppError;
use crate::grammar::{is_negator, token_is_negator, Entry, TokenOrTerm, entries};
use crate::tokens::alphabet::Token;

verus! {

/// What may stand first in a proposition.
#[derive(Debug, Clone, Copy, PartialEq, Eq, Structural)]
pub enum StartRule {
    /// Only an opening bracket: every proposition is anchored in brackets.
    Bracket,
    /// An opening bracket, a digit or a term.
    BracketOrOperand,
}

/// The first token of an entry.
pub open spec fn first_token(entry: Entry) -> Token {
    match entry {
        Entry::Single(token) => token,
        Entry::Term(tokens) => tokens[0],
    }
}

/// Whether `entry` may stand first under `rule`.
pub open spec fn may_start(entry: Entry, rule: StartRule) -> bool {
    match entry {
        Entry::Single(token) => token is OpenBracket || (rule == StartRule::BracketOrOperand
            && token is Number),
        Entry::Term(_) => rule == StartRule::BracketOrOperand,
    }
}

/// Whether `entry` may stand directly behind a closing bracket: it must be
/// a bracket or an operator that passed through on its own. A term is a
/// value, and no value may follow a closing bracket without an operator
/// between them.
pub open spec fn may_follow_close(entry: Entry) -> bool {
    entry matches Entry::Single(token) && (token is OpenBracket || token is CloseBracket
        || token is Operator)
}

/// Whether `entry` is an operator that passed through on its own.
pub open spec fn is_bare_operator(entry: Entry) -> bool {
    entry matches Entry::Single(token) && token is Operator
}

/// The rule that the entry at `i` breaks, if it breaks one. The rules are
/// tried in this order: the first entry must be one that may start a
/// proposition; a closing bracket must be followed by nothing, a bracket or
/// an operator; an operator directly behind another operator must be a
/// negator.
pub open spec fn violation_at(all: Seq<Entry>, i: int, rule: StartRule) -> Option<AppError> {
    if i == 0 && !may_start(all[0], rule) {
        Some(AppError::InvalidSequenceStart)
    } else if (all[i] matches Entry::Single(token) && token is CloseBracket) && i + 1 < all.len()
        && !may_follow_close(all[i + 1]) {
        Some(AppError::InvalidTokenAfterClosingBracket(i as usize))
    } else if i > 0 && is_bare_operator(all[i - 1]) && is_bare_operator(all[i]) && !is_negator(
        first_token(all[i]),
    ) {
        Some(AppError::InvalidOperatorAdjacency(i as usize))
    } else {
        None
    }
}

/// The first rule broken at or behind index `i`, if any is.
pub open spec fn first_violation(all: Seq<Entry>, i: int, rule: StartRule) -> Option<AppError>
    decreases all.len() - i,
{
    if i < 0 || i >= all.len() {
        None
    } else {
        match violation_at(all, i, rule) {
            Some(error) => Some(error),
            None => first_violation(all, i + 1, rule),
        }
    }
}

/// The outcome of the structure check: the first broken rule as an error,
/// or success where no entry breaks any.
pub open spec fn structure_check(all: Seq<Entry>, rule: StartRule) -> Result<(), AppError> {
    match first_violation(all, 0, rule) {
        Some(error) => Err(error),
        None => Ok(()),
    }
}

/// The first violation from `i` on is that of the least index at which a
/// rule is broken, and there is none exactly where no entry breaks a rule.
pub proof fn lemma_first_violation(all: Seq<Entry>, i: int, rule: StartRule)
    requires
        0 <= i <= all.len(),
    ensures
        first_violation(all, i, rule) is None <==> forall|k: int|
            i <= k < all.len() ==> (#[trigger] violation_at(all, k, rule)) is None,
        first_violation(all, i, rule) matches Some(error) ==> exists|k: int|
            {
                &&& i <= k < all.len()
                &&& #[trigger] violation_at(all, k, rule) == Some(error)
                &&& forall|j: int| i <= j < k ==> (#[trigger] violation_at(all, j, rule)) is None
            },
    decreases all.len() - i,
{
    if i < all.len() {
        lemma_first_violation(all, i + 1, rule);
        match violation_at(all, i, rule) {
            Some(error) => {
                assert(violation_at(all, i, rule) == Some(error));
            },
            None => {
                if first_violation(all, i + 1, rule) is Some {
                    let error = first_violation(all, i + 1, rule)->0;
                    let k = choose|k: int|
                        {
                            &&& i + 1 <= k < all.len()
                            &&& #[trigger] violation_at(all, k, rule) == Some(error)
                            &&& forall|j: int|
                                i + 1 <= j < k ==> (#[trigger] violation_at(all, j, rule)) is None
                        };
                    assert(violation_at(all, k, rule) == Some(error));
                }
            },
        }
    }
}

/// The first token of an entry.
pub fn first_token_of(entry: &TokenOrTerm) -> (token: Token)
    ensures
        token == first_token(entry@),
{
    match entry {
        TokenOrTerm::Single(token) => *token,
        TokenOrTerm::Term(term) => {
            let tokens = term.tokens();
            tokens[0]
        },
    }
}

/// Tests an entry for being an operator that passed through on its own.
pub fn entry_is_bare_operator(entry: &TokenOrTerm) -> (yes: bool)
    ensures
        yes == is_bare_operator(entry@),
{
    match entry {
        TokenOrTerm::Single(Token::Operator(_)) => true,
        _ => false,
    }
}

/// Checks the entry at `i` against the rules.
pub fn check_entry(proposition: &[TokenOrTerm], i: usize, rule: StartRule) -> (broken: Option<
    AppError,
>)
    requires
        i < proposition@.len(),
    ensures
        broken == violation_at(entries(proposition@), i as int, rule),
{
    let ghost all = entries(proposition@);
    assert(all[i as int] == proposition@[i as int]@);
    let entry = &proposition[i];
    if i == 0 {
        let starts = match entry {
            TokenOrTerm::Single(Token::OpenBracket(_)) => true,
            TokenOrTerm::Single(Token::Number(_)) => rule == StartRule::BracketOrOperand,
            TokenOrTerm::Single(_) => false,
            TokenOrTerm::Term(_) => rule == StartRule::BracketOrOperand,
        };
        if !starts {
            return Some(AppError::InvalidSequenceStart);
        }
    }
    let closes = match entry {
        TokenOrTerm::Single(Token::CloseBracket(_)) => true,
        _ => false,
    };
    if closes && i < proposition.len() - 1 {
        assert(all[i + 1] == proposition@[i + 1]@);
        let follows = match &proposition[i + 1] {
            TokenOrTerm::Single(Token::OpenBracket(_)) => true,
            TokenOrTerm::Single(Token::CloseBracket(_)) => true,
            TokenOrTerm::Single(Token::Operator(_)) => true,
            _ => false,
        };
        if !follows {
            return Some(AppError::InvalidTokenAfterClosingBracket(i));
        }
    }
    if i > 0 {
        assert(all[i - 1] == proposition@[i - 1]@);
        if entry_is_bare_operator(&proposition[i - 1]) && entry_is_bare_operator(entry) {
            let token = first_token_of(entry);
            if !token_is_negator(&token) {
                return Some(AppError::InvalidOperatorAdjacency(i));
            }
        }
    }
    None
}

/// Walks a grouped sequence and holds it to the adjacency rules of the
/// grammar. The first broken rule is returned with its position; a sequence
/// that breaks none is well-formed.
pub fn validate_proposition_structure(proposition: &[TokenOrTerm], rule: StartRule) -> (outcome:
    Result<(), AppError>)
    ensures
        outcome == structure_check(entries(proposition@), rule),
{
    let mut i: usize = 0;
    while i < proposition.len()
        invariant
            0 <= i <= proposition@.len(),
            entries(proposition@).len() == proposition@.len(),
            first_violation(entries(proposition@), 0, rule) == first_violation(
                entries(proposition@),
                i as int,
                rule,
            ),
        decreases proposition@.len() - i,
    {
        match check_entry(proposition, i, rule) {
            Some(error) => {
                return Err(error);
            },
            None => {},
        }
        i = i + 1;
    }
    Ok(())
}

} // verus!
