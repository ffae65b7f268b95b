//! The token type and the classification of single characters.

use vstd::prelude::*;
use crate::tokens::operators::{LogicOp, MathOp, OperatorKind, OperatorTrait, RelOp};
use crate::tokens::variables::{char_is_letter, is_letter, Constant};

verus! {

/// The kinds of bracket. Each kind has one opening and one closing
/// character, and no bracket character belongs to any other class.
#[derive(Debug, Clone, Copy, PartialEq, Eq, Structural)]
pub enum BracketKind {
    Parenthesis,
    Square,
    Curly,
}

/// The smallest classified unit of a proposition.
#[derive(Debug, Clone, Copy, PartialEq, Eq, Structural)]
pub enum Token {
    /// A letter, Latin or Greek, that names a variable.
    Variable(char),
    /// One decimal digit. A number is a run of these tokens.
    Number(char),
    /// The underscore that starts a subscript.
    Underscore,
    /// The dot between the integer part and the fraction of a number.
    Dot,
    /// An operator of some family.
    Operator(OperatorKind),
    /// A bracket that opens a level of nesting.
    OpenBracket(BracketKind),
    /// A bracket that closes a level of nesting.
    CloseBracket(BracketKind),
    /// A named constant.
    Constant(Constant),
    /// A character that no recognizer accepts.
    Invalid(char),
}

/// The operator families by which a single character can be classified.
#[derive(Debug, Clone, Copy, PartialEq, Eq, Structural)]
pub enum OperatorFamily {
    Logic,
    Math,
    Relational,
}

/// The coarse class of a single character, before any operator family is
/// consulted.
#[derive(Debug, Clone, Copy, PartialEq, Eq, Structural)]
pub enum SymbolClass {
    Letter,
    Digit,
    Underscore,
    Dot,
    OpenBracket(BracketKind),
    CloseBracket(BracketKind),
    /// None of the above: an operator, a constant or nothing at all.
    Other,
}

/// Whether `c` is one of the ten decimal digits.
pub open spec fn is_digit(c: char) -> bool {
    '0' <= c && c <= '9'
}

/// Tests a character for being a decimal digit.
pub fn char_is_digit(c: char) -> (yes: bool)
    ensures
        yes == is_digit(c),
{
    '0' <= c && c <= '9'
}

impl BracketKind {
    /// The character that opens a bracket of this kind.
    pub open spec fn open_glyph(self) -> char {
        match self {
            BracketKind::Parenthesis => '(',
            BracketKind::Square => '[',
            BracketKind::Curly => '{',
        }
    }

    /// The character that closes a bracket of this kind.
    pub open spec fn close_glyph(self) -> char {
        match self {
            BracketKind::Parenthesis => ')',
            BracketKind::Square => ']',
            BracketKind::Curly => '}',
        }
    }

    /// The bracket token that `c` is, if it is a bracket character.
    pub open spec fn token_of(c: char) -> Option<Token> {
        if c == '(' {
            Some(Token::OpenBracket(BracketKind::Parenthesis))
        } else if c == '[' {
            Some(Token::OpenBracket(BracketKind::Square))
        } else if c == '{' {
            Some(Token::OpenBracket(BracketKind::Curly))
        } else if c == ')' {
            Some(Token::CloseBracket(BracketKind::Parenthesis))
        } else if c == ']' {
            Some(Token::CloseBracket(BracketKind::Square))
        } else if c == '}' {
            Some(Token::CloseBracket(BracketKind::Curly))
        } else {
            None
        }
    }

    /// Recognizes a character as an opening or closing bracket.
    pub fn from_char(c: char) -> (token: Option<Token>)
        ensures
            token == Self::token_of(c),
    {
        if c == '(' {
            Some(Token::OpenBracket(BracketKind::Parenthesis))
        } else if c == '[' {
            Some(Token::OpenBracket(BracketKind::Square))
        } else if c == '{' {
            Some(Token::OpenBracket(BracketKind::Curly))
        } else if c == ')' {
            Some(Token::CloseBracket(BracketKind::Parenthesis))
        } else if c == ']' {
            Some(Token::CloseBracket(BracketKind::Square))
        } else if c == '}' {
            Some(Token::CloseBracket(BracketKind::Curly))
        } else {
            None
        }
    }

    /// The opening and the closing character of this kind of bracket.
    pub fn to_char(&self) -> (pair: (char, char))
        ensures
            pair.0 == self.open_glyph(),
            pair.1 == self.close_glyph(),
    {
        match self {
            BracketKind::Parenthesis => ('(', ')'),
            BracketKind::Square => ('[', ']'),
            BracketKind::Curly => ('{', '}'),
        }
    }
}

impl SymbolClass {
    /// The coarse class of `c`.
    pub open spec fn of(c: char) -> SymbolClass {
        match BracketKind::token_of(c) {
            Some(Token::OpenBracket(kind)) => SymbolClass::OpenBracket(kind),
            Some(Token::CloseBracket(kind)) => SymbolClass::CloseBracket(kind),
            _ => if is_letter(c) {
                SymbolClass::Letter
            } else if is_digit(c) {
                SymbolClass::Digit
            } else if c == '_' {
                SymbolClass::Underscore
            } else if c == '.' {
                SymbolClass::Dot
            } else {
                SymbolClass::Other
            },
        }
    }

    /// Classifies a single character.
    pub fn classify(c: char) -> (class: SymbolClass)
        ensures
            class == Self::of(c),
    {
        match BracketKind::from_char(c) {
            Some(Token::OpenBracket(kind)) => SymbolClass::OpenBracket(kind),
            Some(Token::CloseBracket(kind)) => SymbolClass::CloseBracket(kind),
            _ => if char_is_letter(c) {
                SymbolClass::Letter
            } else if char_is_digit(c) {
                SymbolClass::Digit
            } else if c == '_' {
                SymbolClass::Underscore
            } else if c == '.' {
                SymbolClass::Dot
            } else {
                SymbolClass::Other
            },
        }
    }
}

impl OperatorFamily {
    /// The operator of this family that the single character `c` denotes.
    pub open spec fn operator_of(self, c: char) -> Option<OperatorKind> {
        match self {
            OperatorFamily::Logic => match LogicOp::of_char(c) {
                Some(op) => Some(OperatorKind::Logic(op)),
                None => None,
            },
            OperatorFamily::Math => match MathOp::of_char(c) {
                Some(op) => Some(OperatorKind::Math(op)),
                None => None,
            },
            OperatorFamily::Relational => match RelOp::of_char(c) {
                Some(op) => Some(OperatorKind::Relational(op)),
                None => None,
            },
        }
    }

    /// Recognizes a single character as an operator of this family.
    pub fn operator_from(&self, c: char) -> (op: Option<OperatorKind>)
        ensures
            op == self.operator_of(c),
    {
        match self {
            OperatorFamily::Logic => match LogicOp::from_char(c) {
                Some(op) => Some(OperatorKind::Logic(op)),
                None => None,
            },
            OperatorFamily::Math => match MathOp::from_char(c) {
                Some(op) => Some(OperatorKind::Math(op)),
                None => None,
            },
            OperatorFamily::Relational => match RelOp::from_char(c) {
                Some(op) => Some(OperatorKind::Relational(op)),
                None => None,
            },
        }
    }
}

impl Token {
    /// The token that the single character `c` is when operators are read
    /// in `family`: a bracket, a variable, a digit, an underscore or a dot
    /// by its coarse class, else an operator of the family, else invalid.
    pub open spec fn classify(c: char, family: OperatorFamily) -> Token {
        match SymbolClass::of(c) {
            SymbolClass::OpenBracket(kind) => Token::OpenBracket(kind),
            SymbolClass::CloseBracket(kind) => Token::CloseBracket(kind),
            SymbolClass::Letter => Token::Variable(c),
            SymbolClass::Digit => Token::Number(c),
            SymbolClass::Underscore => Token::Underscore,
            SymbolClass::Dot => Token::Dot,
            SymbolClass::Other => match family.operator_of(c) {
                Some(op) => Token::Operator(op),
                None => Token::Invalid(c),
            },
        }
    }

    /// The character by which this token is written out.
    pub open spec fn glyph(self) -> char {
        match self {
            Token::Variable(c) => c,
            Token::Number(c) => c,
            Token::Invalid(c) => c,
            Token::Underscore => '_',
            Token::Dot => '.',
            Token::Operator(op) => op.glyph(),
            Token::OpenBracket(kind) => kind.open_glyph(),
            Token::CloseBracket(kind) => kind.close_glyph(),
            Token::Constant(constant) => constant.symbol(),
        }
    }

    /// Classifies a single character, reading operators in `family`.
    pub fn from(c: char, family: OperatorFamily) -> (token: Token)
        ensures
            token == Self::classify(c, family),
    {
        match SymbolClass::classify(c) {
            SymbolClass::OpenBracket(kind) => Token::OpenBracket(kind),
            SymbolClass::CloseBracket(kind) => Token::CloseBracket(kind),
            SymbolClass::Letter => Token::Variable(c),
            SymbolClass::Digit => Token::Number(c),
            SymbolClass::Underscore => Token::Underscore,
            SymbolClass::Dot => Token::Dot,
            SymbolClass::Other => match family.operator_from(c) {
                Some(op) => Token::Operator(op),
                None => Token::Invalid(c),
            },
        }
    }

    /// The character by which this token is written out.
    pub fn to_char(&self) -> (c: char)
        ensures
            c == self.glyph(),
    {
        match self {
            Token::Variable(c) => *c,
            Token::Number(c) => *c,
            Token::Invalid(c) => *c,
            Token::Underscore => '_',
            Token::Dot => '.',
            Token::Operator(op) => op.to_char(),
            Token::OpenBracket(kind) => kind.to_char().0,
            Token::CloseBracket(kind) => kind.to_char().1,
            Token::Constant(constant) => constant.to_char(),
        }
    }
}

/// Classification is a function of the character and the family alone, and
/// it is idempotent: the character by which the token of `c` is written out
/// is classified as that same token.
pub proof fn lemma_classify_idempotent(c: char, family: OperatorFamily)
    ensures
        Token::classify(Token::classify(c, family).glyph(), family) == Token::classify(c, family),
{
}

/// Classifying the same character twice in the same family yields the
/// same token.
pub proof fn lemma_classify_stable(c: char, family: OperatorFamily, first: Token, second: Token)
    requires
        first == Token::classify(c, family),
        second == Token::classify(c, family),
    ensures
        first == second,
{
}

/// The bracket characters are six different characters, each read as the
/// bracket it writes, and none of them belongs to another class: a bracket
/// character is no letter, no digit, no underscore, no dot and no operator
/// of any family.
pub proof fn lemma_brackets_apart(kind: BracketKind, other: BracketKind, c: char)
    ensures
        BracketKind::token_of(kind.open_glyph()) == Some(Token::OpenBracket(kind)),
        BracketKind::token_of(kind.close_glyph()) == Some(Token::CloseBracket(kind)),
        kind.open_glyph() != other.close_glyph(),
        kind != other ==> kind.open_glyph() != other.open_glyph() && kind.close_glyph()
            != other.close_glyph(),
        BracketKind::token_of(c) is Some ==> {
            &&& !is_letter(c)
            &&& !is_digit(c)
            &&& c != '_'
            &&& c != '.'
            &&& LogicOp::of_char(c) is None
            &&& MathOp::of_char(c) is None
            &&& RelOp::of_char(c) is None
        },
{
}

} // verus!
