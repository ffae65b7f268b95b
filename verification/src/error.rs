//! The errors that tokenizing and validating a proposition can report.

use vstd::prelude::*;
use vstd::string::StringExecFns;
use crate::util::text::{decimal, push_decimal};

verus! {

/// Why a proposition was rejected. Every pass stops at its first error, so
/// a caller receives one error for one rejected proposition. Positions are
/// zero-based indices into the sequence that the failing pass was given.
#[derive(Debug, Clone, Copy, PartialEq, Eq, Structural)]
pub enum AppError {
    /// The character at this position of the normalized input matches no
    /// recognizer of the active registry.
    InvalidCharacter(usize),
    /// The closing bracket at this position has no open bracket to pair with.
    UnmatchedClosingBracket(usize),
    /// The bracket opened at the first position is closed at the second by a
    /// bracket of another kind.
    MismatchedBracketType(usize, usize),
    /// The bracket opened at this position is never closed.
    UnclosedOpeningBracket(usize),
    /// The underscore at this position is not followed by a digit.
    MissingSubscriptDigits(usize),
    /// The sequence holds no variable, constant or number at all.
    EmptyOperandSet,
    /// The first entry may not start a proposition.
    InvalidSequenceStart,
    /// The last entry may not end a proposition.
    InvalidSequenceEnd,
    /// The operator at this position follows another operator and is not a
    /// negator.
    InvalidOperatorAdjacency(usize),
    /// The closing bracket at this position is followed by a term, or by a
    /// token that is neither a bracket nor an operator.
    InvalidTokenAfterClosingBracket(usize),
}

/// The message of an error, as it is shown to the user: the rule that was
/// broken and, where the error has one, the position in decimal.
pub open spec fn message_of(error: AppError) -> Seq<char> {
    match error {
        AppError::InvalidCharacter(at) => "Invalid character at position "@ + decimal(at as nat),
        AppError::UnmatchedClosingBracket(at) => "Unmatched closing bracket at position "@
            + decimal(at as nat),
        AppError::MismatchedBracketType(from, to) => "Mismatched brackets at positions "@
            + decimal(from as nat) + " and "@ + decimal(to as nat),
        AppError::UnclosedOpeningBracket(at) => "Unmatched opening bracket at position "@
            + decimal(at as nat),
        AppError::MissingSubscriptDigits(at) => "Expected a number after underscore at position "@
            + decimal(at as nat),
        AppError::EmptyOperandSet => "No variables or numbers found"@,
        AppError::InvalidSequenceStart => "Invalid start of proposition"@,
        AppError::InvalidSequenceEnd => "Invalid end of proposition"@,
        AppError::InvalidOperatorAdjacency(at) => "Invalid sequence of operators at position "@
            + decimal(at as nat),
        AppError::InvalidTokenAfterClosingBracket(at) =>
            "Invalid token following a close bracket at position "@ + decimal(at as nat),
    }
}

/// `head` and the decimal digits of `at` behind it.
fn positioned(head: &str, at: usize) -> (text: String)
    ensures
        text@ == head@ + decimal(at as nat),
{
    let mut text = String::from_str(head);
    push_decimal(&mut text, at as u64);
    text
}

impl AppError {
    /// The message of this error, fit to be shown as it is.
    pub fn message(&self) -> (text: String)
        ensures
            text@ == message_of(*self),
    {
        match self {
            AppError::InvalidCharacter(at) => positioned("Invalid character at position ", *at),
            AppError::UnmatchedClosingBracket(at) => positioned(
                "Unmatched closing bracket at position ",
                *at,
            ),
            AppError::MismatchedBracketType(from, to) => {
                let mut text = positioned("Mismatched brackets at positions ", *from);
                text.append(" and ");
                push_decimal(&mut text, *to as u64);
                text
            },
            AppError::UnclosedOpeningBracket(at) => positioned(
                "Unmatched opening bracket at position ",
                *at,
            ),
            AppError::MissingSubscriptDigits(at) => positioned(
                "Expected a number after underscore at position ",
                *at,
            ),
            AppError::EmptyOperandSet => String::from_str("No variables or numbers found"),
            AppError::InvalidSequenceStart => String::from_str("Invalid start of proposition"),
            AppError::InvalidSequenceEnd => String::from_str("Invalid end of proposition"),
            AppError::InvalidOperatorAdjacency(at) => positioned(
                "Invalid sequence of operators at position ",
                *at,
            ),
            AppError::InvalidTokenAfterClosingBracket(at) => positioned(
                "Invalid token following a close bracket at position ",
                *at,
            ),
        }
    }
}

} // verus!
