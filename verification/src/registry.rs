//! The candidate recognizers and the registry that tries them in a fixed
//! order of priority.

use vstd::prelude::*;
use crate::lexer::TokenRecognizer;
use crate::tokens::alphabet::{char_is_digit, is_digit, BracketKind, Token};
use crate::tokens::operators::{LogicOp, MathOp, OperatorKind, OperatorTrait, RelOp};
use crate::tokens::variables::{
    char_is_greek,
    char_is_letter,
    is_greek,
    is_letter,
    Constant,
    MathConst,
    PhysicConst,
    VariableTrait,
};

verus! {

/// The length of the longest glyph of any family: the four characters of
/// `\tau`.
pub const MAX_GLYPH_LEN: usize = 4;

/// One recognizer for each family of tokens. A recognizer is total over its
/// own family and never accepts a glyph of another.
#[derive(Debug, Clone, Copy, PartialEq, Eq, Structural)]
pub enum Recognizer {
    /// The six bracket characters.
    Bracket,
    /// The letters `A` to `Z` and `a` to `z`, as variables.
    Letter,
    /// The Greek letters, as variables.
    Greek,
    /// The decimal digits, one token for each digit.
    Digit,
    /// The underscore and the dot.
    Punctuation,
    /// The operators of logic.
    Logic,
    /// The operators of arithmetic.
    Math,
    /// The relational operators.
    Relational,
    /// The constants of mathematics.
    MathConstant,
    /// The constants of physics.
    PhysicConstant,
}

impl TokenRecognizer for Recognizer {
    open spec fn recognized(&self, input: Seq<char>) -> Option<Token> {
        match self {
            Recognizer::Bracket => if input.len() == 1 {
                BracketKind::token_of(input[0])
            } else {
                None
            },
            Recognizer::Letter => if input.len() == 1 && is_letter(input[0]) {
                Some(Token::Variable(input[0]))
            } else {
                None
            },
            Recognizer::Greek => if input.len() == 1 && is_greek(input[0]) {
                Some(Token::Variable(input[0]))
            } else {
                None
            },
            Recognizer::Digit => if input.len() == 1 && is_digit(input[0]) {
                Some(Token::Number(input[0]))
            } else {
                None
            },
            Recognizer::Punctuation => if input.len() == 1 && input[0] == '_' {
                Some(Token::Underscore)
            } else if input.len() == 1 && input[0] == '.' {
                Some(Token::Dot)
            } else {
                None
            },
            Recognizer::Logic => match LogicOp::of_glyph(input) {
                Some(op) => Some(Token::Operator(OperatorKind::Logic(op))),
                None => None,
            },
            Recognizer::Math => match MathOp::of_glyph(input) {
                Some(op) => Some(Token::Operator(OperatorKind::Math(op))),
                None => None,
            },
            Recognizer::Relational => match RelOp::of_glyph(input) {
                Some(op) => Some(Token::Operator(OperatorKind::Relational(op))),
                None => None,
            },
            Recognizer::MathConstant => match MathConst::of_glyph(input) {
                Some(constant) => Some(Token::Constant(Constant::Math(constant))),
                None => None,
            },
            Recognizer::PhysicConstant => match PhysicConst::of_glyph(input) {
                Some(constant) => Some(Token::Constant(Constant::Physic(constant))),
                None => None,
            },
        }
    }

    open spec fn reach(&self) -> nat {
        match self {
            Recognizer::Logic => 2,
            Recognizer::Relational => 2,
            Recognizer::MathConstant => 4,
            Recognizer::PhysicConstant => 3,
            _ => 1,
        }
    }

    proof fn lemma_reach(&self, input: Seq<char>) {
    }

    fn max_len(&self) -> (n: usize) {
        match self {
            Recognizer::Logic => 2,
            Recognizer::Relational => 2,
            Recognizer::MathConstant => 4,
            Recognizer::PhysicConstant => 3,
            _ => 1,
        }
    }

    fn recognize_token(&self, input: &[char]) -> (token: Option<Token>) {
        match self {
            Recognizer::Bracket => if input.len() == 1 {
                BracketKind::from_char(input[0])
            } else {
                None
            },
            Recognizer::Letter => if input.len() == 1 && char_is_letter(input[0]) {
                Some(Token::Variable(input[0]))
            } else {
                None
            },
            Recognizer::Greek => if input.len() == 1 && char_is_greek(input[0]) {
                Some(Token::Variable(input[0]))
            } else {
                None
            },
            Recognizer::Digit => if input.len() == 1 && char_is_digit(input[0]) {
                Some(Token::Number(input[0]))
            } else {
                None
            },
            Recognizer::Punctuation => if input.len() == 1 && input[0] == '_' {
                Some(Token::Underscore)
            } else if input.len() == 1 && input[0] == '.' {
                Some(Token::Dot)
            } else {
                None
            },
            Recognizer::Logic => match LogicOp::from_chars(input) {
                Some(op) => Some(Token::Operator(OperatorKind::Logic(op))),
                None => None,
            },
            Recognizer::Math => match MathOp::from_chars(input) {
                Some(op) => Some(Token::Operator(OperatorKind::Math(op))),
                None => None,
            },
            Recognizer::Relational => match RelOp::from_chars(input) {
                Some(op) => Some(Token::Operator(OperatorKind::Relational(op))),
                None => None,
            },
            Recognizer::MathConstant => match MathConst::from_chars(input) {
                Some(constant) => Some(Token::Constant(Constant::Math(constant))),
                None => None,
            },
            Recognizer::PhysicConstant => match PhysicConst::from_chars(input) {
                Some(constant) => Some(Token::Constant(Constant::Physic(constant))),
                None => None,
            },
        }
    }
}

impl Recognizer {
    /// Whether `token` is of the family of this recognizer.
    pub open spec fn yields(self, token: Token) -> bool {
        match self {
            Recognizer::Bracket => token is OpenBracket || token is CloseBracket,
            Recognizer::Letter => token matches Token::Variable(c) && is_letter(c),
            Recognizer::Greek => token matches Token::Variable(c) && is_greek(c),
            Recognizer::Digit => token matches Token::Number(c) && is_digit(c),
            Recognizer::Punctuation => token is Underscore || token is Dot,
            Recognizer::Logic => token matches Token::Operator(op) && op is Logic,
            Recognizer::Math => token matches Token::Operator(op) && op is Math,
            Recognizer::Relational => token matches Token::Operator(op) && op is Relational,
            Recognizer::MathConstant => token matches Token::Constant(constant) && constant is Math,
            Recognizer::PhysicConstant => token matches Token::Constant(constant)
                && constant is Physic,
        }
    }

    /// A recognizer yields tokens of its own family only, and never an
    /// invalid token.
    pub proof fn lemma_own_family(self, input: Seq<char>)
        ensures
            self.recognized(input) matches Some(token) ==> self.yields(token) && !(token
                is Invalid),
    {
    }
}

/// No list of recognizers yields an invalid token.
pub proof fn lemma_first_match_valid(recognizers: Seq<Recognizer>, from: int, input: Seq<char>)
    ensures
        first_match(recognizers, from, input) matches Some(token) ==> !(token is Invalid),
    decreases recognizers.len() - from,
{
    if 0 <= from < recognizers.len() {
        recognizers[from].lemma_own_family(input);
        lemma_first_match_valid(recognizers, from + 1, input);
    }
}

/// The vocabularies a registry can be built from. The profile alone decides
/// what a glyph shared by several families means.
#[derive(Debug, Clone, Copy, PartialEq, Eq, Structural)]
pub enum Profile {
    /// Brackets, letters, digits, punctuation and the operators of logic.
    Logic,
    /// Brackets, letters, digits, punctuation and the operators of
    /// arithmetic.
    Math,
    /// The math profile with the constants of physics before it.
    Physic,
    /// Every family: the constants first, arithmetic before logic before
    /// the relational operators, Greek letters before Latin ones.
    Complete,
}

impl Profile {
    /// The recognizers of this profile, in their order of priority.
    pub open spec fn recognizers(self) -> Seq<Recognizer> {
        match self {
            Profile::Logic => seq![
                Recognizer::Bracket,
                Recognizer::Letter,
                Recognizer::Digit,
                Recognizer::Punctuation,
                Recognizer::Logic,
            ],
            Profile::Math => seq![
                Recognizer::Bracket,
                Recognizer::Letter,
                Recognizer::Digit,
                Recognizer::Punctuation,
                Recognizer::Math,
            ],
            Profile::Physic => seq![
                Recognizer::PhysicConstant,
                Recognizer::Bracket,
                Recognizer::Letter,
                Recognizer::Digit,
                Recognizer::Punctuation,
                Recognizer::Math,
            ],
            Profile::Complete => seq![
                Recognizer::PhysicConstant,
                Recognizer::MathConstant,
                Recognizer::Bracket,
                Recognizer::Digit,
                Recognizer::Punctuation,
                Recognizer::Math,
                Recognizer::Logic,
                Recognizer::Relational,
                Recognizer::Greek,
                Recognizer::Letter,
            ],
        }
    }
}

/// What the first recognizer of `recognizers` from index `from` on that
/// accepts `input` makes of it.
pub open spec fn first_match(recognizers: Seq<Recognizer>, from: int, input: Seq<char>) -> Option<
    Token,
>
    decreases recognizers.len() - from,
{
    if from < 0 || from >= recognizers.len() {
        None
    } else {
        match recognizers[from].recognized(input) {
            Some(token) => Some(token),
            None => first_match(recognizers, from + 1, input),
        }
    }
}

/// An ordered list of recognizers. A candidate is tried against each in
/// turn, and the first that accepts it decides the token. A registry is
/// never changed once it is built; a new family is added by building a
/// longer registry.
pub struct Registry {
    recognizers: Vec<Recognizer>,
}

impl View for Registry {
    type V = Seq<Recognizer>;

    closed spec fn view(&self) -> Seq<Recognizer> {
        self.recognizers@
    }
}

impl Registry {
    /// A registry without any recognizer: it accepts nothing.
    pub fn new() -> (registry: Registry)
        ensures
            registry@ == Seq::<Recognizer>::empty(),
    {
        Registry { recognizers: Vec::new() }
    }

    /// This registry with `recognizer` appended behind all it holds.
    pub fn with(self, recognizer: Recognizer) -> (registry: Registry)
        ensures
            registry@ == self@.push(recognizer),
    {
        let mut recognizers = self.recognizers;
        recognizers.push(recognizer);
        Registry { recognizers }
    }

    /// The registry of a profile.
    pub fn for_profile(profile: Profile) -> (registry: Registry)
        ensures
            registry@ == profile.recognizers(),
    {
        let registry = Registry::new().with(Recognizer::Bracket).with(Recognizer::Letter).with(
            Recognizer::Digit,
        ).with(Recognizer::Punctuation);
        let registry = match profile {
            Profile::Logic => registry.with(Recognizer::Logic),
            Profile::Math => registry.with(Recognizer::Math),
            Profile::Physic => Registry::new().with(Recognizer::PhysicConstant).with(
                Recognizer::Bracket,
            ).with(Recognizer::Letter).with(Recognizer::Digit).with(Recognizer::Punctuation).with(
                Recognizer::Math,
            ),
            Profile::Complete => Registry::new().with(Recognizer::PhysicConstant).with(
                Recognizer::MathConstant,
            ).with(Recognizer::Bracket).with(Recognizer::Digit).with(Recognizer::Punctuation).with(
                Recognizer::Math,
            ).with(Recognizer::Logic).with(Recognizer::Relational).with(Recognizer::Greek).with(
                Recognizer::Letter,
            ),
        };
        assert(registry@ =~= profile.recognizers());
        registry
    }

    /// The number of recognizers.
    pub fn len(&self) -> (n: usize)
        ensures
            n == self@.len(),
    {
        self.recognizers.len()
    }

    /// The recognizer at `index` in the order of priority.
    pub fn get(&self, index: usize) -> (recognizer: Option<Recognizer>)
        ensures
            recognizer == (if index < self@.len() {
                Some(self@[index as int])
            } else {
                None
            }),
    {
        if index < self.recognizers.len() {
            Some(self.recognizers[index])
        } else {
            None
        }
    }
}

/// Appending a recognizer changes nothing of what the recognizers before
/// it accept: the new one is asked only where all of them fail.
pub proof fn lemma_appended_is_asked_last(
    recognizers: Seq<Recognizer>,
    added: Recognizer,
    from: int,
    input: Seq<char>,
)
    requires
        0 <= from <= recognizers.len(),
    ensures
        first_match(recognizers.push(added), from, input) == (match first_match(
            recognizers,
            from,
            input,
        ) {
            Some(token) => Some(token),
            None => added.recognized(input),
        }),
    decreases recognizers.len() - from,
{
    let longer = recognizers.push(added);
    if from < recognizers.len() {
        assert(longer[from] == recognizers[from]);
        lemma_appended_is_asked_last(recognizers, added, from + 1, input);
    } else {
        assert(longer[from] == added);
        assert(first_match(longer, from + 1, input) is None);
    }
}

/// A match by any recognizer of a list is a string of one to four
/// characters.
pub proof fn lemma_first_match_reach(recognizers: Seq<Recognizer>, from: int, input: Seq<char>)
    ensures
        first_match(recognizers, from, input) is Some ==> 1 <= input.len() <= MAX_GLYPH_LEN,
    decreases recognizers.len() - from,
{
    if 0 <= from < recognizers.len() {
        recognizers[from].lemma_reach(input);
        lemma_first_match_reach(recognizers, from + 1, input);
    }
}

impl TokenRecognizer for Registry {
    open spec fn recognized(&self, input: Seq<char>) -> Option<Token> {
        first_match(self@, 0, input)
    }

    open spec fn reach(&self) -> nat {
        MAX_GLYPH_LEN as nat
    }

    proof fn lemma_reach(&self, input: Seq<char>) {
        lemma_first_match_reach(self@, 0, input);
    }

    fn max_len(&self) -> (n: usize) {
        MAX_GLYPH_LEN
    }

    fn recognize_token(&self, input: &[char]) -> (token: Option<Token>) {
        let mut i: usize = 0;
        while i < self.recognizers.len()
            invariant
                0 <= i <= self.recognizers@.len(),
                first_match(self@, 0, input@) == first_match(self@, i as int, input@),
            decreases self.recognizers@.len() - i,
        {
            match self.recognizers[i].recognize_token(input) {
                Some(token) => {
                    return Some(token);
                },
                None => {},
            }
            i = i + 1;
        }
        None
    }
}

/// Keeps what was found, or asks the next recognizer where nothing was.
fn or_try(found: Option<Token>, recognizer: Recognizer, input: &[char]) -> (token: Option<Token>)
    ensures
        token == (match found {
            Some(token) => Some(token),
            None => recognizer.recognized(input@),
        }),
{
    match found {
        Some(token) => Some(token),
        None => recognizer.recognize_token(input),
    }
}

/// A profile is itself a recognizer: it accepts what the first of its
/// recognizers that accepts the candidate makes of it.
impl TokenRecognizer for Profile {
    open spec fn recognized(&self, input: Seq<char>) -> Option<Token> {
        first_match(self.recognizers(), 0, input)
    }

    open spec fn reach(&self) -> nat {
        MAX_GLYPH_LEN as nat
    }

    proof fn lemma_reach(&self, input: Seq<char>) {
        lemma_first_match_reach(self.recognizers(), 0, input);
    }

    fn max_len(&self) -> (n: usize) {
        MAX_GLYPH_LEN
    }

    fn recognize_token(&self, input: &[char]) -> (token: Option<Token>) {
        proof {
            reveal_with_fuel(first_match, 11);
        }
        match self {
            Profile::Logic => {
                let found = Recognizer::Bracket.recognize_token(input);
                let found = or_try(found, Recognizer::Letter, input);
                let found = or_try(found, Recognizer::Digit, input);
                let found = or_try(found, Recognizer::Punctuation, input);
                or_try(found, Recognizer::Logic, input)
            },
            Profile::Math => {
                let found = Recognizer::Bracket.recognize_token(input);
                let found = or_try(found, Recognizer::Letter, input);
                let found = or_try(found, Recognizer::Digit, input);
                let found = or_try(found, Recognizer::Punctuation, input);
                or_try(found, Recognizer::Math, input)
            },
            Profile::Physic => {
                let found = Recognizer::PhysicConstant.recognize_token(input);
                let found = or_try(found, Recognizer::Bracket, input);
                let found = or_try(found, Recognizer::Letter, input);
                let found = or_try(found, Recognizer::Digit, input);
                let found = or_try(found, Recognizer::Punctuation, input);
                or_try(found, Recognizer::Math, input)
            },
            Profile::Complete => {
                let found = Recognizer::PhysicConstant.recognize_token(input);
                let found = or_try(found, Recognizer::MathConstant, input);
                let found = or_try(found, Recognizer::Bracket, input);
                let found = or_try(found, Recognizer::Digit, input);
                let found = or_try(found, Recognizer::Punctuation, input);
                let found = or_try(found, Recognizer::Math, input);
                let found = or_try(found, Recognizer::Logic, input);
                let found = or_try(found, Recognizer::Relational, input);
                let found = or_try(found, Recognizer::Greek, input);
                or_try(found, Recognizer::Letter, input)
            },
        }
    }
}

/// The registry built for a profile accepts exactly what the profile
/// accepts: what a glyph means depends on the profile alone.
pub proof fn lemma_registry_is_profile(registry: &Registry, profile: Profile, input: Seq<char>)
    requires
        registry@ == profile.recognizers(),
    ensures
        registry.recognized(input) == profile.recognized(input),
{
}

/// The recognizer of operators of any family: arithmetic first, then
/// logic, then the relational operators.
#[derive(Debug, Clone, Copy, PartialEq, Eq, Structural)]
pub struct Operator;

/// The recognizer of all that can stand where a variable stands: Latin
/// letters, Greek letters, and the constants of mathematics and physics.
#[derive(Debug, Clone, Copy, PartialEq, Eq, Structural)]
pub struct Variable;

/// The recognizer of number literals: a single decimal digit.
#[derive(Debug, Clone, Copy, PartialEq, Eq, Structural)]
pub struct Number;

/// The recognizer of the primitive tokens of logic: digits, the operators
/// of logic and the relational operators.
#[derive(Debug, Clone, Copy, PartialEq, Eq, Structural)]
pub struct PrimitiveToken;

impl Operator {
    /// The recognizers that are asked, in their order of priority.
    pub open spec fn recognizers() -> Seq<Recognizer> {
        seq![Recognizer::Math, Recognizer::Logic, Recognizer::Relational]
    }
}

impl Variable {
    /// The recognizers that are asked, in their order of priority.
    pub open spec fn recognizers() -> Seq<Recognizer> {
        seq![
            Recognizer::Letter,
            Recognizer::Greek,
            Recognizer::MathConstant,
            Recognizer::PhysicConstant,
        ]
    }
}

impl Number {
    /// The recognizers that are asked, in their order of priority.
    pub open spec fn recognizers() -> Seq<Recognizer> {
        seq![Recognizer::Digit]
    }
}

impl PrimitiveToken {
    /// The recognizers that are asked, in their order of priority.
    pub open spec fn recognizers() -> Seq<Recognizer> {
        seq![Recognizer::Digit, Recognizer::Logic, Recognizer::Relational]
    }
}

impl TokenRecognizer for Operator {
    open spec fn recognized(&self, input: Seq<char>) -> Option<Token> {
        first_match(Self::recognizers(), 0, input)
    }

    open spec fn reach(&self) -> nat {
        MAX_GLYPH_LEN as nat
    }

    proof fn lemma_reach(&self, input: Seq<char>) {
        lemma_first_match_reach(Self::recognizers(), 0, input);
    }

    fn max_len(&self) -> (n: usize) {
        MAX_GLYPH_LEN
    }

    fn recognize_token(&self, input: &[char]) -> (token: Option<Token>) {
        proof {
            reveal_with_fuel(first_match, 5);
        }
        let found = Recognizer::Math.recognize_token(input);
        let found = or_try(found, Recognizer::Logic, input);
        or_try(found, Recognizer::Relational, input)
    }
}

impl TokenRecognizer for Variable {
    open spec fn recognized(&self, input: Seq<char>) -> Option<Token> {
        first_match(Self::recognizers(), 0, input)
    }

    open spec fn reach(&self) -> nat {
        MAX_GLYPH_LEN as nat
    }

    proof fn lemma_reach(&self, input: Seq<char>) {
        lemma_first_match_reach(Self::recognizers(), 0, input);
    }

    fn max_len(&self) -> (n: usize) {
        MAX_GLYPH_LEN
    }

    fn recognize_token(&self, input: &[char]) -> (token: Option<Token>) {
        proof {
            reveal_with_fuel(first_match, 5);
        }
        let found = Recognizer::Letter.recognize_token(input);
        let found = or_try(found, Recognizer::Greek, input);
        let found = or_try(found, Recognizer::MathConstant, input);
        or_try(found, Recognizer::PhysicConstant, input)
    }
}

impl TokenRecognizer for Number {
    open spec fn recognized(&self, input: Seq<char>) -> Option<Token> {
        first_match(Self::recognizers(), 0, input)
    }

    open spec fn reach(&self) -> nat {
        MAX_GLYPH_LEN as nat
    }

    proof fn lemma_reach(&self, input: Seq<char>) {
        lemma_first_match_reach(Self::recognizers(), 0, input);
    }

    fn max_len(&self) -> (n: usize) {
        MAX_GLYPH_LEN
    }

    fn recognize_token(&self, input: &[char]) -> (token: Option<Token>) {
        proof {
            reveal_with_fuel(first_match, 3);
        }
        Recognizer::Digit.recognize_token(input)
    }
}

impl TokenRecognizer for PrimitiveToken {
    open spec fn recognized(&self, input: Seq<char>) -> Option<Token> {
        first_match(Self::recognizers(), 0, input)
    }

    open spec fn reach(&self) -> nat {
        MAX_GLYPH_LEN as nat
    }

    proof fn lemma_reach(&self, input: Seq<char>) {
        lemma_first_match_reach(Self::recognizers(), 0, input);
    }

    fn max_len(&self) -> (n: usize) {
        MAX_GLYPH_LEN
    }

    fn recognize_token(&self, input: &[char]) -> (token: Option<Token>) {
        proof {
            reveal_with_fuel(first_match, 5);
        }
        let found = Recognizer::Digit.recognize_token(input);
        let found = or_try(found, Recognizer::Logic, input);
        or_try(found, Recognizer::Relational, input)
    }
}

} // verus!
