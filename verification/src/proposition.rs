//! Propositions: a source text scanned, checked and grouped in one call.

use vstd::prelude::*;
use crate::brackets::{check_token_brackets, pairing, token_marks};
use crate::error::AppError;
use crate::grammar::{
    entries,
    group_tokens_into_terms,
    grouped,
    grouping_view,
    is_operand,
    lemma_grouped_sound,
    operand_check,
    Entry,
    Term,
    TokenOrTerm,
};
use crate::lexer::{
    lemma_maximal_munch,
    next_len,
    next_token,
    normalize,
    normalized,
    scan_token,
    tokens_from,
    TokenRecognizer,
};
use crate::registry::Profile;
use crate::structure::{structure_check, validate_proposition_structure, StartRule};
use crate::tokens::alphabet::Token;

verus! {

/// The position of the first character from `pos` on at which the scan
/// yields an invalid token, if it yields one.
pub open spec fn first_invalid<R: TokenRecognizer>(recognizer: &R, input: Seq<char>, pos: int)
    -> Option<int>
    decreases input.len() - pos,
{
    if pos < 0 || pos >= input.len() {
        None
    } else if next_token(recognizer, input, pos) is Invalid {
        Some(pos)
    } else {
        proof {
            lemma_maximal_munch(recognizer, input, pos);
        }
        first_invalid(recognizer, input, pos + next_len(recognizer, input, pos))
    }
}

/// The outcome of scanning a normalized input: its tokens, or the position
/// of the first character that matches no recognizer.
pub open spec fn scanned<R: TokenRecognizer>(recognizer: &R, input: Seq<char>) -> Result<
    Seq<Token>,
    AppError,
> {
    match first_invalid(recognizer, input, 0) {
        Some(pos) => Err(AppError::InvalidCharacter(pos as usize)),
        None => Ok(tokens_from(recognizer, input, 0)),
    }
}

/// The outcome of validating a token sequence. The passes run in this
/// order and the first error ends the validation: the brackets are paired,
/// an operand is looked for, the tokens are grouped into terms, and the
/// grouped sequence is held to the adjacency rules.
pub open spec fn validated(tokens: Seq<Token>, rule: StartRule) -> Result<Seq<Entry>, AppError> {
    match pairing(token_marks(tokens)) {
        Err(error) => Err(error),
        Ok(_) => match operand_check(tokens) {
            Err(error) => Err(error),
            Ok(_) => match grouped(tokens) {
                Err(error) => Err(error),
                Ok(all) => match structure_check(all, rule) {
                    Err(error) => Err(error),
                    Ok(_) => Ok(all),
                },
            },
        },
    }
}

/// The index of the first invalid token from index `i` on, if there is one.
pub open spec fn first_invalid_token(tokens: Seq<Token>, i: int) -> Option<int>
    decreases tokens.len() - i,
{
    if i < 0 || i >= tokens.len() {
        None
    } else if tokens[i] is Invalid {
        Some(i)
    } else {
        first_invalid_token(tokens, i + 1)
    }
}

/// The outcome of checking a table of tokens: the position of its first
/// invalid token as an error, else the outcome of its validation.
pub open spec fn checked(tokens: Seq<Token>, rule: StartRule) -> Result<Seq<Entry>, AppError> {
    match first_invalid_token(tokens, 0) {
        Some(at) => Err(AppError::InvalidCharacter(at as usize)),
        None => validated(tokens, rule),
    }
}

/// The outcome of reading a normalized input as a proposition: its tokens
/// and its grouped sequence, or the first error of the scan or of the
/// validation.
pub open spec fn parsed<R: TokenRecognizer>(recognizer: &R, input: Seq<char>, rule: StartRule)
    -> Result<(Seq<Token>, Seq<Entry>), AppError> {
    match scanned(recognizer, input) {
        Err(error) => Err(error),
        Ok(tokens) => match validated(tokens, rule) {
            Err(error) => Err(error),
            Ok(all) => Ok((tokens, all)),
        },
    }
}

/// Scans a normalized input from its start to its end and stops at the
/// first character that matches no recognizer.
pub fn tokenize<R: TokenRecognizer>(recognizer: &R, input: &[char]) -> (outcome: Result<
    Vec<Token>,
    AppError,
>)
    ensures
        match outcome {
            Ok(tokens) => scanned(recognizer, input@) == Ok::<Seq<Token>, AppError>(tokens@),
            Err(error) => scanned(recognizer, input@) == Err::<Seq<Token>, AppError>(error),
        },
{
    let mut tokens: Vec<Token> = Vec::new();
    let mut pos: usize = 0;
    while pos < input.len()
        invariant
            0 <= pos <= input@.len(),
            first_invalid(recognizer, input@, 0) == first_invalid(recognizer, input@, pos as int),
            tokens_from(recognizer, input@, 0) == tokens@ + tokens_from(
                recognizer,
                input@,
                pos as int,
            ),
        decreases input@.len() - pos,
    {
        let step = scan_token(recognizer, input, pos);
        match step.0 {
            Token::Invalid(_) => {
                return Err(AppError::InvalidCharacter(pos));
            },
            _ => {},
        }
        proof {
            let rest = tokens_from(recognizer, input@, pos + step.1);
            assert(tokens@.push(step.0) + rest =~= tokens@ + (seq![step.0] + rest));
        }
        tokens.push(step.0);
        pos = pos + step.1;
    }
    assert(tokens@ + Seq::<Token>::empty() =~= tokens@);
    Ok(tokens)
}

/// Validates a token sequence: pairs its brackets, looks for an operand,
/// groups its tokens into terms and checks the adjacency rules, and
/// returns the grouped sequence or the first error.
pub fn validate_tokens(tokens: &[Token], rule: StartRule) -> (outcome: Result<
    Vec<TokenOrTerm>,
    AppError,
>)
    ensures
        grouping_view(outcome) == validated(tokens@, rule),
{
    match check_token_brackets(tokens) {
        Err(error) => {
            return Err(error);
        },
        Ok(_) => {},
    }
    match Term::check_var_and_num(tokens) {
        Err(error) => {
            return Err(error);
        },
        Ok(_) => {},
    }
    let all = match group_tokens_into_terms(tokens) {
        Err(error) => {
            return Err(error);
        },
        Ok(all) => all,
    };
    match validate_proposition_structure(all.as_slice(), rule) {
        Err(error) => Err(error),
        Ok(_) => Ok(all),
    }
}

/// Checks a table of tokens: rejects it at its first invalid token, and
/// else validates it and returns the grouped sequence or the first error.
pub fn check_tokens(tokens: &[Token], rule: StartRule) -> (outcome: Result<
    Vec<TokenOrTerm>,
    AppError,
>)
    ensures
        grouping_view(outcome) == checked(tokens@, rule),
{
    let mut i: usize = 0;
    while i < tokens.len()
        invariant
            0 <= i <= tokens@.len(),
            first_invalid_token(tokens@, 0) == first_invalid_token(tokens@, i as int),
        decreases tokens@.len() - i,
    {
        match tokens[i] {
            Token::Invalid(_) => {
                return Err(AppError::InvalidCharacter(i));
            },
            _ => {},
        }
        i = i + 1;
    }
    validate_tokens(tokens, rule)
}

/// What the outcome of reading a proposition holds.
pub open spec fn parse_view(outcome: Result<(Vec<Token>, Vec<TokenOrTerm>), AppError>) -> Result<
    (Seq<Token>, Seq<Entry>),
    AppError,
> {
    match outcome {
        Ok(pair) => Ok((pair.0@, entries(pair.1@))),
        Err(error) => Err(error),
    }
}

/// Reads a normalized input as a proposition: scans it with `recognizer`
/// and validates the tokens.
pub fn parse_chars<R: TokenRecognizer>(recognizer: &R, input: &[char], rule: StartRule) -> (outcome:
    Result<(Vec<Token>, Vec<TokenOrTerm>), AppError>)
    ensures
        parse_view(outcome) == parsed(recognizer, input@, rule),
{
    let tokens = match tokenize(recognizer, input) {
        Err(error) => {
            return Err(error);
        },
        Ok(tokens) => tokens,
    };
    match validate_tokens(tokens.as_slice(), rule) {
        Err(error) => Err(error),
        Ok(all) => Ok((tokens, all)),
    }
}

/// Reads a source text as a proposition: strips what carries no lexical
/// meaning, scans the rest with `recognizer` and validates the tokens.
pub fn parse_proposition<R: TokenRecognizer>(recognizer: &R, src: &str, rule: StartRule) -> (outcome:
    Result<(Vec<Token>, Vec<TokenOrTerm>), AppError>)
    ensures
        parse_view(outcome) == parsed(recognizer, normalized(src@), rule),
{
    let input = normalize(src);
    parse_chars(recognizer, input.as_slice(), rule)
}

/// A sequence without any operand, whose brackets pair up, is rejected for
/// its empty operand set, whatever else it holds.
pub proof fn lemma_empty_operand_set(tokens: Seq<Token>, rule: StartRule)
    requires
        forall|k: int| 0 <= k < tokens.len() ==> !is_operand(#[trigger] tokens[k]),
        pairing(token_marks(tokens)) is Ok,
    ensures
        validated(tokens, rule) == Err::<Seq<Entry>, AppError>(AppError::EmptyOperandSet),
{
}

/// A table of brackets and operators only, whose brackets pair up, is
/// rejected for its empty operand set.
pub proof fn lemma_checked_empty_operand_set(tokens: Seq<Token>, rule: StartRule)
    requires
        forall|k: int|
            0 <= k < tokens.len() ==> (#[trigger] tokens[k]) is OpenBracket || tokens[k]
                is CloseBracket || tokens[k] is Operator,
        pairing(token_marks(tokens)) is Ok,
    ensures
        checked(tokens, rule) == Err::<Seq<Entry>, AppError>(AppError::EmptyOperandSet),
{
    lemma_no_invalid_token(tokens, 0);
    lemma_empty_operand_set(tokens, rule);
}

/// A table without an invalid token has no first invalid token, and the
/// first invalid token of a table is invalid and has none before it.
pub proof fn lemma_no_invalid_token(tokens: Seq<Token>, i: int)
    requires
        0 <= i,
    ensures
        first_invalid_token(tokens, i) is None <==> forall|k: int|
            i <= k < tokens.len() ==> !((#[trigger] tokens[k]) is Invalid),
        first_invalid_token(tokens, i) matches Some(at) ==> {
            &&& i <= at < tokens.len()
            &&& tokens[at] is Invalid
            &&& forall|k: int| i <= k < at ==> !((#[trigger] tokens[k]) is Invalid)
        },
    decreases tokens.len() - i,
{
    if i < tokens.len() {
        lemma_no_invalid_token(tokens, i + 1);
    }
}

/// A proposition that is accepted holds every token of its input once and
/// in order, and ends on a term, a closing bracket or a digit.
pub proof fn lemma_validated_sound(tokens: Seq<Token>, rule: StartRule)
    ensures
        validated(tokens, rule) matches Ok(all) ==> {
            &&& crate::grammar::flatten(all) == tokens
            &&& pairing(token_marks(tokens)) is Ok
            &&& exists|k: int| 0 <= k < tokens.len() && is_operand(#[trigger] tokens[k])
            &&& structure_check(all, rule) is Ok
        },
{
    lemma_grouped_sound(tokens);
}

/// What every kind of proposition offers: it is made from a source text,
/// and only from one that passes every check.
pub trait PropositionTrait: Sized {
    /// The vocabulary in which propositions of this kind are read.
    spec fn profile() -> Profile;

    /// The tokens of the proposition.
    spec fn token_table(&self) -> Seq<Token>;

    /// The grouped sequence of the proposition.
    spec fn grouping(&self) -> Seq<Entry>;

    /// Reads `src` as a proposition of this kind. A proposition may start
    /// with an opening bracket, a digit or a term.
    fn new(src: &str) -> (outcome: Result<Self, AppError>)
        ensures
            match outcome {
                Ok(proposition) => parsed(
                    &Self::profile(),
                    normalized(src@),
                    StartRule::BracketOrOperand,
                ) == Ok::<(Seq<Token>, Seq<Entry>), AppError>(
                    (proposition.token_table(), proposition.grouping()),
                ),
                Err(error) => parsed(
                    &Self::profile(),
                    normalized(src@),
                    StartRule::BracketOrOperand,
                ) == Err::<(Seq<Token>, Seq<Entry>), AppError>(error),
            },
    ;
}

/// What a proposition of logic offers beyond its construction.
pub trait LogicPTrait: PropositionTrait {
    /// The truth value of the proposition under the given values of its
    /// variables.
    fn evaluate(&self, variables: Vec<bool>) -> bool;

    /// The truth table of the proposition, as text.
    fn get_truth_table_string(&self) -> String;

    /// The Karnaugh map of the proposition, as text.
    fn get_kmap_string(&self) -> String;
}

/// A proposition of logic.
pub struct LogicProposition {
    token_table: Vec<Token>,
    terms: Vec<TokenOrTerm>,
}

/// A proposition of arithmetic.
pub struct MathProposition {
    token_table: Vec<Token>,
    terms: Vec<TokenOrTerm>,
}

impl PropositionTrait for LogicProposition {
    open spec fn profile() -> Profile {
        Profile::Logic
    }

    closed spec fn token_table(&self) -> Seq<Token> {
        self.token_table@
    }

    closed spec fn grouping(&self) -> Seq<Entry> {
        entries(self.terms@)
    }

    fn new(src: &str) -> (outcome: Result<LogicProposition, AppError>) {
        match parse_proposition(&Profile::Logic, src, StartRule::BracketOrOperand) {
            Ok(pair) => Ok(LogicProposition { token_table: pair.0, terms: pair.1 }),
            Err(error) => Err(error),
        }
    }
}

impl PropositionTrait for MathProposition {
    open spec fn profile() -> Profile {
        Profile::Math
    }

    closed spec fn token_table(&self) -> Seq<Token> {
        self.token_table@
    }

    closed spec fn grouping(&self) -> Seq<Entry> {
        entries(self.terms@)
    }

    fn new(src: &str) -> (outcome: Result<MathProposition, AppError>) {
        match parse_proposition(&Profile::Math, src, StartRule::BracketOrOperand) {
            Ok(pair) => Ok(MathProposition { token_table: pair.0, terms: pair.1 }),
            Err(error) => Err(error),
        }
    }
}

impl LogicProposition {
    /// The tokens of the proposition, in order.
    pub fn tokens(&self) -> (tokens: &Vec<Token>)
        ensures
            tokens@ == self.token_table(),
    {
        &self.token_table
    }

    /// The grouped sequence of the proposition.
    pub fn terms(&self) -> (terms: &Vec<TokenOrTerm>)
        ensures
            entries(terms@) == self.grouping(),
    {
        &self.terms
    }
}

impl MathProposition {
    /// The tokens of the proposition, in order.
    pub fn tokens(&self) -> (tokens: &Vec<Token>)
        ensures
            tokens@ == self.token_table(),
    {
        &self.token_table
    }

    /// The grouped sequence of the proposition.
    pub fn terms(&self) -> (terms: &Vec<TokenOrTerm>)
        ensures
            entries(terms@) == self.grouping(),
    {
        &self.terms
    }
}

} // verus!
