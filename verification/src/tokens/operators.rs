//! Operator families. Each family is a closed set of operators with a table
//! of glyphs; several families share glyphs (`*`, `+`, `^`, `!`), which is
//! why the family in use is always chosen by the caller.

use vstd::prelude::*;

verus! {

/// Operators of propositional logic.
#[derive(Debug, Clone, Copy, PartialEq, Eq, Structural)]
pub enum LogicOp {
    And,
    Or,
    Not,
    XOr,
    XNOr,
    NAnd,
    NOr,
    Implies,
    IFf,
}

/// Operators of arithmetic.
#[derive(Debug, Clone, Copy, PartialEq, Eq, Structural)]
pub enum MathOp {
    Add,
    Subtract,
    Multiply,
    Divide,
    Modulo,
    Power,
    Root,
    Factorial,
}

/// Operators that compare two values.
#[derive(Debug, Clone, Copy, PartialEq, Eq, Structural)]
pub enum RelOp {
    Equal,
    NotEqual,
    LessThan,
    LessThanOrEqual,
    GreaterThan,
    GreaterThanOrEqual,
}

/// An operator together with the family it belongs to.
#[derive(Debug, Clone, Copy, PartialEq, Eq, Structural)]
pub enum OperatorKind {
    Logic(LogicOp),
    Math(MathOp),
    Relational(RelOp),
}

/// Whether `s` is the one-character string `a`.
pub open spec fn glyph1(s: Seq<char>, a: char) -> bool {
    s.len() == 1 && s[0] == a
}

/// Whether `s` is the two-character string `a`, `b`.
pub open spec fn glyph2(s: Seq<char>, a: char, b: char) -> bool {
    s.len() == 2 && s[0] == a && s[1] == b
}

/// Whether `s` is the three-character string `a`, `b`, `c`.
pub open spec fn glyph3(s: Seq<char>, a: char, b: char, c: char) -> bool {
    s.len() == 3 && s[0] == a && s[1] == b && s[2] == c
}

/// Whether `s` is the four-character string `a`, `b`, `c`, `d`.
pub open spec fn glyph4(s: Seq<char>, a: char, b: char, c: char, d: char) -> bool {
    s.len() == 4 && s[0] == a && s[1] == b && s[2] == c && s[3] == d
}

/// Tests a candidate against a two-character glyph.
pub fn is_glyph2(input: &[char], a: char, b: char) -> (hit: bool)
    ensures
        hit == glyph2(input@, a, b),
{
    input.len() == 2 && input[0] == a && input[1] == b
}

/// Tests a candidate against a three-character glyph.
pub fn is_glyph3(input: &[char], a: char, b: char, c: char) -> (hit: bool)
    ensures
        hit == glyph3(input@, a, b, c),
{
    input.len() == 3 && input[0] == a && input[1] == b && input[2] == c
}

/// Tests a candidate against a four-character glyph.
pub fn is_glyph4(input: &[char], a: char, b: char, c: char, d: char) -> (hit: bool)
    ensures
        hit == glyph4(input@, a, b, c, d),
{
    input.len() == 4 && input[0] == a && input[1] == b && input[2] == c && input[3] == d
}

/// What every operator family offers: a glyph table read in both
/// directions.
pub trait OperatorTrait: Sized {
    /// The operator that the whole string `s` denotes in this family.
    spec fn of_glyph(s: Seq<char>) -> Option<Self>;

    /// The character by which this operator is written out.
    spec fn glyph(&self) -> char;

    /// Recognizes a whole candidate string as an operator of this family.
    fn from_chars(input: &[char]) -> (op: Option<Self>)
        ensures
            op == Self::of_glyph(input@),
    ;

    /// The character by which this operator is written out.
    fn to_char(&self) -> (c: char)
        ensures
            c == self.glyph(),
    ;
}

/// A family that designates one of its operators as its negator: the only
/// operator that may directly follow another operator.
pub trait OperatorNegator: OperatorTrait {
    /// The family's negator.
    spec fn negator_spec() -> Self;

    /// The family's negator.
    fn negator() -> (op: Self)
        ensures
            op == Self::negator_spec(),
    ;
}

impl LogicOp {
    /// The logic operator that the single character `c` denotes.
    pub open spec fn of_char(c: char) -> Option<LogicOp> {
        if c == '&' || c == '^' || c == '\u{2227}' || c == '*' {
            Some(LogicOp::And)
        } else if c == '|' || c == '\u{2228}' || c == '+' {
            Some(LogicOp::Or)
        } else if c == '!' || c == '~' || c == '\u{ac}' {
            Some(LogicOp::Not)
        } else if c == '\u{2295}' || c == '\u{22bb}' || c == '\u{2a01}' {
            Some(LogicOp::XOr)
        } else if c == '\u{2299}' || c == '\u{22bd}' {
            Some(LogicOp::XNOr)
        } else if c == '\u{2191}' {
            Some(LogicOp::NAnd)
        } else if c == '\u{2193}' {
            Some(LogicOp::NOr)
        } else if c == '\u{2192}' {
            Some(LogicOp::Implies)
        } else if c == '\u{2194}' {
            Some(LogicOp::IFf)
        } else {
            None
        }
    }

    /// Recognizes a single character as a logic operator.
    pub fn from_char(c: char) -> (op: Option<LogicOp>)
        ensures
            op == Self::of_char(c),
    {
        if c == '&' || c == '^' || c == '\u{2227}' || c == '*' {
            Some(LogicOp::And)
        } else if c == '|' || c == '\u{2228}' || c == '+' {
            Some(LogicOp::Or)
        } else if c == '!' || c == '~' || c == '\u{ac}' {
            Some(LogicOp::Not)
        } else if c == '\u{2295}' || c == '\u{22bb}' || c == '\u{2a01}' {
            Some(LogicOp::XOr)
        } else if c == '\u{2299}' || c == '\u{22bd}' {
            Some(LogicOp::XNOr)
        } else if c == '\u{2191}' {
            Some(LogicOp::NAnd)
        } else if c == '\u{2193}' {
            Some(LogicOp::NOr)
        } else if c == '\u{2192}' {
            Some(LogicOp::Implies)
        } else if c == '\u{2194}' {
            Some(LogicOp::IFf)
        } else {
            None
        }
    }
}

impl OperatorTrait for LogicOp {
    open spec fn of_glyph(s: Seq<char>) -> Option<LogicOp> {
        if s.len() == 1 {
            Self::of_char(s[0])
        } else if glyph2(s, '|', '|') {
            Some(LogicOp::Or)
        } else {
            None
        }
    }

    open spec fn glyph(&self) -> char {
        match self {
            LogicOp::And => '&',
            LogicOp::Or => '|',
            LogicOp::Not => '!',
            LogicOp::XOr => '\u{2295}',
            LogicOp::XNOr => '\u{2299}',
            LogicOp::NAnd => '\u{2191}',
            LogicOp::NOr => '\u{2193}',
            LogicOp::Implies => '\u{2192}',
            LogicOp::IFf => '\u{2194}',
        }
    }

    fn from_chars(input: &[char]) -> (op: Option<LogicOp>) {
        if input.len() == 1 {
            Self::from_char(input[0])
        } else if is_glyph2(input, '|', '|') {
            Some(LogicOp::Or)
        } else {
            None
        }
    }

    fn to_char(&self) -> (c: char) {
        match self {
            LogicOp::And => '&',
            LogicOp::Or => '|',
            LogicOp::Not => '!',
            LogicOp::XOr => '\u{2295}',
            LogicOp::XNOr => '\u{2299}',
            LogicOp::NAnd => '\u{2191}',
            LogicOp::NOr => '\u{2193}',
            LogicOp::Implies => '\u{2192}',
            LogicOp::IFf => '\u{2194}',
        }
    }
}

impl OperatorNegator for LogicOp {
    open spec fn negator_spec() -> LogicOp {
        LogicOp::Not
    }

    fn negator() -> (op: LogicOp) {
        LogicOp::Not
    }
}

impl MathOp {
    /// The arithmetic operator that the single character `c` denotes.
    pub open spec fn of_char(c: char) -> Option<MathOp> {
        if c == '+' {
            Some(MathOp::Add)
        } else if c == '-' {
            Some(MathOp::Subtract)
        } else if c == '*' {
            Some(MathOp::Multiply)
        } else if c == '/' {
            Some(MathOp::Divide)
        } else if c == '%' {
            Some(MathOp::Modulo)
        } else if c == '^' {
            Some(MathOp::Power)
        } else if c == '\u{221a}' {
            Some(MathOp::Root)
        } else if c == '!' {
            Some(MathOp::Factorial)
        } else {
            None
        }
    }

    /// Recognizes a single character as an arithmetic operator.
    pub fn from_char(c: char) -> (op: Option<MathOp>)
        ensures
            op == Self::of_char(c),
    {
        if c == '+' {
            Some(MathOp::Add)
        } else if c == '-' {
            Some(MathOp::Subtract)
        } else if c == '*' {
            Some(MathOp::Multiply)
        } else if c == '/' {
            Some(MathOp::Divide)
        } else if c == '%' {
            Some(MathOp::Modulo)
        } else if c == '^' {
            Some(MathOp::Power)
        } else if c == '\u{221a}' {
            Some(MathOp::Root)
        } else if c == '!' {
            Some(MathOp::Factorial)
        } else {
            None
        }
    }
}

impl OperatorTrait for MathOp {
    open spec fn of_glyph(s: Seq<char>) -> Option<MathOp> {
        if s.len() == 1 {
            Self::of_char(s[0])
        } else {
            None
        }
    }

    open spec fn glyph(&self) -> char {
        match self {
            MathOp::Add => '+',
            MathOp::Subtract => '-',
            MathOp::Multiply => '*',
            MathOp::Divide => '/',
            MathOp::Modulo => '%',
            MathOp::Power => '^',
            MathOp::Root => '\u{221a}',
            MathOp::Factorial => '!',
        }
    }

    fn from_chars(input: &[char]) -> (op: Option<MathOp>) {
        if input.len() == 1 {
            Self::from_char(input[0])
        } else {
            None
        }
    }

    fn to_char(&self) -> (c: char) {
        match self {
            MathOp::Add => '+',
            MathOp::Subtract => '-',
            MathOp::Multiply => '*',
            MathOp::Divide => '/',
            MathOp::Modulo => '%',
            MathOp::Power => '^',
            MathOp::Root => '\u{221a}',
            MathOp::Factorial => '!',
        }
    }
}

impl OperatorNegator for MathOp {
    open spec fn negator_spec() -> MathOp {
        MathOp::Subtract
    }

    fn negator() -> (op: MathOp) {
        MathOp::Subtract
    }
}

impl RelOp {
    /// The relational operator that the single character `c` denotes.
    pub open spec fn of_char(c: char) -> Option<RelOp> {
        if c == '=' {
            Some(RelOp::Equal)
        } else if c == '\u{2260}' {
            Some(RelOp::NotEqual)
        } else if c == '<' {
            Some(RelOp::LessThan)
        } else if c == '\u{2264}' {
            Some(RelOp::LessThanOrEqual)
        } else if c == '>' {
            Some(RelOp::GreaterThan)
        } else if c == '\u{2265}' {
            Some(RelOp::GreaterThanOrEqual)
        } else {
            None
        }
    }

    /// Recognizes a single character as a relational operator.
    pub fn from_char(c: char) -> (op: Option<RelOp>)
        ensures
            op == Self::of_char(c),
    {
        if c == '=' {
            Some(RelOp::Equal)
        } else if c == '\u{2260}' {
            Some(RelOp::NotEqual)
        } else if c == '<' {
            Some(RelOp::LessThan)
        } else if c == '\u{2264}' {
            Some(RelOp::LessThanOrEqual)
        } else if c == '>' {
            Some(RelOp::GreaterThan)
        } else if c == '\u{2265}' {
            Some(RelOp::GreaterThanOrEqual)
        } else {
            None
        }
    }
}

impl OperatorTrait for RelOp {
    open spec fn of_glyph(s: Seq<char>) -> Option<RelOp> {
        if s.len() == 1 {
            Self::of_char(s[0])
        } else if glyph2(s, '=', '=') {
            Some(RelOp::Equal)
        } else if glyph2(s, '!', '=') {
            Some(RelOp::NotEqual)
        } else if glyph2(s, '<', '=') {
            Some(RelOp::LessThanOrEqual)
        } else if glyph2(s, '>', '=') {
            Some(RelOp::GreaterThanOrEqual)
        } else {
            None
        }
    }

    open spec fn glyph(&self) -> char {
        match self {
            RelOp::Equal => '=',
            RelOp::NotEqual => '\u{2260}',
            RelOp::LessThan => '<',
            RelOp::LessThanOrEqual => '\u{2264}',
            RelOp::GreaterThan => '>',
            RelOp::GreaterThanOrEqual => '\u{2265}',
        }
    }

    fn from_chars(input: &[char]) -> (op: Option<RelOp>) {
        if input.len() == 1 {
            Self::from_char(input[0])
        } else if is_glyph2(input, '=', '=') {
            Some(RelOp::Equal)
        } else if is_glyph2(input, '!', '=') {
            Some(RelOp::NotEqual)
        } else if is_glyph2(input, '<', '=') {
            Some(RelOp::LessThanOrEqual)
        } else if is_glyph2(input, '>', '=') {
            Some(RelOp::GreaterThanOrEqual)
        } else {
            None
        }
    }

    fn to_char(&self) -> (c: char) {
        match self {
            RelOp::Equal => '=',
            RelOp::NotEqual => '\u{2260}',
            RelOp::LessThan => '<',
            RelOp::LessThanOrEqual => '\u{2264}',
            RelOp::GreaterThan => '>',
            RelOp::GreaterThanOrEqual => '\u{2265}',
        }
    }
}

impl OperatorNegator for RelOp {
    open spec fn negator_spec() -> RelOp {
        RelOp::NotEqual
    }

    fn negator() -> (op: RelOp) {
        RelOp::NotEqual
    }
}

impl OperatorKind {
    /// Whether this operator is the negator of its own family.
    pub open spec fn is_negator_spec(self) -> bool {
        match self {
            OperatorKind::Logic(op) => op == LogicOp::negator_spec(),
            OperatorKind::Math(op) => op == MathOp::negator_spec(),
            OperatorKind::Relational(op) => op == RelOp::negator_spec(),
        }
    }

    /// Whether this operator is the negator of its own family.
    pub fn is_negator(&self) -> (yes: bool)
        ensures
            yes == self.is_negator_spec(),
    {
        match self {
            OperatorKind::Logic(op) => *op == LogicOp::negator(),
            OperatorKind::Math(op) => *op == MathOp::negator(),
            OperatorKind::Relational(op) => *op == RelOp::negator(),
        }
    }

    /// The character by which this operator is written out.
    pub open spec fn glyph(self) -> char {
        match self {
            OperatorKind::Logic(op) => op.glyph(),
            OperatorKind::Math(op) => op.glyph(),
            OperatorKind::Relational(op) => op.glyph(),
        }
    }

    /// The character by which this operator is written out.
    pub fn to_char(&self) -> (c: char)
        ensures
            c == self.glyph(),
    {
        match self {
            OperatorKind::Logic(op) => op.to_char(),
            OperatorKind::Math(op) => op.to_char(),
            OperatorKind::Relational(op) => op.to_char(),
        }
    }
}

/// Every logic operator is recognized again from the character it is
/// written out by.
pub proof fn lemma_logic_glyph_round_trip(op: LogicOp)
    ensures
        LogicOp::of_glyph(seq![op.glyph()]) == Some(op),
{
}

/// Every arithmetic operator is recognized again from the character it is
/// written out by.
pub proof fn lemma_math_glyph_round_trip(op: MathOp)
    ensures
        MathOp::of_glyph(seq![op.glyph()]) == Some(op),
{
}

/// Every relational operator is recognized again from the character it is
/// written out by.
pub proof fn lemma_rel_glyph_round_trip(op: RelOp)
    ensures
        RelOp::of_glyph(seq![op.glyph()]) == Some(op),
{
}

} // verus!
