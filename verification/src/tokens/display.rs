//! Tokens as text: the name of a token's kind and a one-line description.

use vstd::prelude::*;
use vstd::string::StringExecFns;
use crate::tokens::alphabet::Token;
use crate::tokens::operators::OperatorKind;
use crate::tokens::variables::{is_greek_capital, is_greek_small, Constant};
use crate::util::text::push_char;

verus! {

/// The width to which the styled name of a kind is padded on the left.
pub const KIND_WIDTH: usize = 28;

/// The name of the kind of `token`.
pub open spec fn kind_name(token: Token) -> Seq<char> {
    match token {
        Token::Variable(c) => if 'a' <= c && c <= 'z' {
            "Alphabet"@
        } else if 'A' <= c && c <= 'Z' {
            "AlphaUpper"@
        } else if is_greek_small(c) {
            "GreekAlpha"@
        } else if is_greek_capital(c) {
            "GreekUpperAlpha"@
        } else {
            "Variable"@
        },
        Token::Number(_) => "Natural"@,
        Token::Underscore => "Underscore"@,
        Token::Dot => "Dot"@,
        Token::Operator(OperatorKind::Logic(_)) => "LogicOp"@,
        Token::Operator(OperatorKind::Math(_)) => "MathOp"@,
        Token::Operator(OperatorKind::Relational(_)) => "RelOp"@,
        Token::OpenBracket(_) => "OpenBracket"@,
        Token::CloseBracket(_) => "CloseBracket"@,
        Token::Constant(Constant::Math(_)) => "MathConst"@,
        Token::Constant(Constant::Physic(_)) => "PhysicConst"@,
        Token::Invalid(_) => "Invalid"@,
    }
}

/// `name` in bold italics: between the escape sequences for bold and for
/// italics and two resets.
pub open spec fn styled(name: Seq<char>) -> Seq<char> {
    "\x1b[1m"@ + "\x1b[3m"@ + name + "\x1b[0m"@ + "\x1b[0m"@
}

/// `n` spaces.
pub open spec fn spaces(n: nat) -> Seq<char> {
    Seq::new(n, |i: int| ' ')
}

/// `text` padded with spaces on the left to `width` characters; a text that
/// is longer stays as it is.
pub open spec fn right_aligned(text: Seq<char>, width: nat) -> Seq<char> {
    if text.len() < width {
        spaces((width - text.len()) as nat) + text
    } else {
        text
    }
}

/// The description of `token`: the styled name of its kind, right-aligned
/// in 28 columns, then ` :: ` and the character the token is written by.
pub open spec fn described(token: Token) -> Seq<char> {
    right_aligned(styled(kind_name(token)), KIND_WIDTH as nat) + " :: "@ + seq![token.glyph()]
}

impl Token {
    /// The name of the kind of this token.
    pub fn t_type(&self) -> (name: &'static str)
        ensures
            name@ == kind_name(*self),
    {
        match self {
            Token::Variable(c) => {
                let c = *c;
                if 'a' <= c && c <= 'z' {
                    "Alphabet"
                } else if 'A' <= c && c <= 'Z' {
                    "AlphaUpper"
                } else if ('\u{3b1}' <= c && c <= '\u{3c1}') || ('\u{3c3}' <= c && c <= '\u{3c9}') {
                    "GreekAlpha"
                } else if ('\u{391}' <= c && c <= '\u{3a1}') || ('\u{3a3}' <= c && c <= '\u{3a9}') {
                    "GreekUpperAlpha"
                } else {
                    "Variable"
                }
            },
            Token::Number(_) => "Natural",
            Token::Underscore => "Underscore",
            Token::Dot => "Dot",
            Token::Operator(OperatorKind::Logic(_)) => "LogicOp",
            Token::Operator(OperatorKind::Math(_)) => "MathOp",
            Token::Operator(OperatorKind::Relational(_)) => "RelOp",
            Token::OpenBracket(_) => "OpenBracket",
            Token::CloseBracket(_) => "CloseBracket",
            Token::Constant(Constant::Math(_)) => "MathConst",
            Token::Constant(Constant::Physic(_)) => "PhysicConst",
            Token::Invalid(_) => "Invalid",
        }
    }

    /// Appends the description of this token to `text`.
    pub fn describe_into(&self, text: &mut String)
        ensures
            final(text)@ == old(text)@ + described(*self),
    {
        let name = self.t_type();
        let mut styled_name = String::from_str("\x1b[1m");
        styled_name.append("\x1b[3m");
        styled_name.append(name);
        styled_name.append("\x1b[0m");
        styled_name.append("\x1b[0m");
        assert(styled_name@ =~= styled(kind_name(*self)));
        let width = styled_name.as_str().unicode_len();
        let ghost start = text@;
        let mut pad: usize = 0;
        if width < KIND_WIDTH {
            while pad < KIND_WIDTH - width
                invariant
                    width < KIND_WIDTH,
                    0 <= pad <= KIND_WIDTH - width,
                    text@ == start + spaces(pad as nat),
                decreases KIND_WIDTH - width - pad,
            {
                push_char(text, ' ');
                assert(text@ =~= start + spaces((pad + 1) as nat));
                pad = pad + 1;
            }
        } else {
            assert(text@ =~= start + Seq::<char>::empty());
        }
        text.append(styled_name.as_str());
        text.append(" :: ");
        push_char(text, self.to_char());
        assert(text@ =~= start + described(*self));
    }

    /// The description of this token.
    pub fn to_string(&self) -> (text: String)
        ensures
            text@ == described(*self),
    {
        let mut text = String::new();
        self.describe_into(&mut text);
        assert(Seq::<char>::empty() + described(*self) =~= described(*self));
        text
    }
}

} // verus!
