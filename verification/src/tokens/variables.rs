//! Letters, Greek letters and named constants: everything that can stand
//! where a variable stands.

use vstd::prelude::*;
use crate::tokens::operators::{glyph2, glyph3, glyph4, is_glyph2, is_glyph3, is_glyph4};

verus! {

/// Constants of mathematics.
#[derive(Debug, Clone, Copy, PartialEq, Eq, Structural)]
pub enum MathConst {
    Tau,
    Pi,
    Phi,
    EulerGamma,
    Infinity,
    E,
}

/// Constants of physics, each written as a backslash and a short name.
#[derive(Debug, Clone, Copy, PartialEq, Eq, Structural)]
pub enum PhysicConst {
    SpeedOfLight,
    PlanckConstant,
    Gravitational,
    MuonMass,
    ElectronMass,
    ProtonMass,
}

/// A named constant together with the family it belongs to.
#[derive(Debug, Clone, Copy, PartialEq, Eq, Structural)]
pub enum Constant {
    Math(MathConst),
    Physic(PhysicConst),
}

/// Whether `c` is one of the 52 letters `A` to `Z` and `a` to `z`.
pub open spec fn is_letter(c: char) -> bool {
    ('A' <= c && c <= 'Z') || ('a' <= c && c <= 'z')
}

/// Whether `c` is one of the 24 small Greek letters alpha (U+03B1) to omega
/// (U+03C9); the final sigma (U+03C2) is not among them.
pub open spec fn is_greek_small(c: char) -> bool {
    ('\u{3b1}' <= c && c <= '\u{3c1}') || ('\u{3c3}' <= c && c <= '\u{3c9}')
}

/// Whether `c` is one of the 24 capital Greek letters Alpha (U+0391) to
/// Omega (U+03A9).
pub open spec fn is_greek_capital(c: char) -> bool {
    ('\u{391}' <= c && c <= '\u{3a1}') || ('\u{3a3}' <= c && c <= '\u{3a9}')
}

/// Whether `c` is a Greek letter, small or capital.
pub open spec fn is_greek(c: char) -> bool {
    is_greek_small(c) || is_greek_capital(c)
}

/// Tests a character for being a letter of the Latin alphabet.
pub fn char_is_letter(c: char) -> (yes: bool)
    ensures
        yes == is_letter(c),
{
    ('A' <= c && c <= 'Z') || ('a' <= c && c <= 'z')
}

/// Tests a character for being a Greek letter.
pub fn char_is_greek(c: char) -> (yes: bool)
    ensures
        yes == is_greek(c),
{
    ('\u{3b1}' <= c && c <= '\u{3c1}') || ('\u{3c3}' <= c && c <= '\u{3c9}') || ('\u{391}' <= c
        && c <= '\u{3a1}') || ('\u{3a3}' <= c && c <= '\u{3a9}')
}

/// What every family of named constants offers: a table of spellings and
/// the symbol each constant is written out by.
pub trait VariableTrait: Sized {
    /// The constant that the whole string `s` spells in this family.
    spec fn of_glyph(s: Seq<char>) -> Option<Self>;

    /// The character by which this constant is written out.
    spec fn symbol(&self) -> char;

    /// Recognizes a whole candidate string as a constant of this family.
    fn from_chars(input: &[char]) -> (constant: Option<Self>)
        ensures
            constant == Self::of_glyph(input@),
    ;

    /// The character by which this constant is written out.
    fn to_char(&self) -> (c: char)
        ensures
            c == self.symbol(),
    ;
}

impl VariableTrait for MathConst {
    /// Tau is U+03C4 or `\tau`, pi is U+03C0 or `\pi`, phi is U+03C6, the
    /// Euler-Mascheroni constant is U+03B3, infinity is U+221E and Euler's
    /// number is `e`.
    open spec fn of_glyph(s: Seq<char>) -> Option<MathConst> {
        if s.len() == 1 && s[0] == '\u{3c4}' || glyph4(s, '\\', 't', 'a', 'u') {
            Some(MathConst::Tau)
        } else if s.len() == 1 && s[0] == '\u{3c0}' || glyph3(s, '\\', 'p', 'i') {
            Some(MathConst::Pi)
        } else if s.len() == 1 && s[0] == '\u{3c6}' {
            Some(MathConst::Phi)
        } else if s.len() == 1 && s[0] == '\u{3b3}' {
            Some(MathConst::EulerGamma)
        } else if s.len() == 1 && s[0] == '\u{221e}' {
            Some(MathConst::Infinity)
        } else if s.len() == 1 && s[0] == 'e' {
            Some(MathConst::E)
        } else {
            None
        }
    }

    open spec fn symbol(&self) -> char {
        match self {
            MathConst::Tau => '\u{3c4}',
            MathConst::Pi => '\u{3c0}',
            MathConst::Phi => '\u{3c6}',
            MathConst::EulerGamma => '\u{3b3}',
            MathConst::Infinity => '\u{221e}',
            MathConst::E => 'e',
        }
    }

    fn from_chars(input: &[char]) -> (constant: Option<MathConst>) {
        if input.len() == 1 && input[0] == '\u{3c4}' || is_glyph4(input, '\\', 't', 'a', 'u') {
            Some(MathConst::Tau)
        } else if input.len() == 1 && input[0] == '\u{3c0}' || is_glyph3(input, '\\', 'p', 'i') {
            Some(MathConst::Pi)
        } else if input.len() == 1 && input[0] == '\u{3c6}' {
            Some(MathConst::Phi)
        } else if input.len() == 1 && input[0] == '\u{3b3}' {
            Some(MathConst::EulerGamma)
        } else if input.len() == 1 && input[0] == '\u{221e}' {
            Some(MathConst::Infinity)
        } else if input.len() == 1 && input[0] == 'e' {
            Some(MathConst::E)
        } else {
            None
        }
    }

    fn to_char(&self) -> (c: char) {
        match self {
            MathConst::Tau => '\u{3c4}',
            MathConst::Pi => '\u{3c0}',
            MathConst::Phi => '\u{3c6}',
            MathConst::EulerGamma => '\u{3b3}',
            MathConst::Infinity => '\u{221e}',
            MathConst::E => 'e',
        }
    }
}

impl VariableTrait for PhysicConst {
    /// The speed of light is `\c`, Planck's constant `\h`, the gravitational
    /// constant `\G`, and the masses of the muon, the electron and the
    /// proton are `\m` followed by mu (U+03BC), `e` and `p`.
    open spec fn of_glyph(s: Seq<char>) -> Option<PhysicConst> {
        if glyph2(s, '\\', 'c') {
            Some(PhysicConst::SpeedOfLight)
        } else if glyph2(s, '\\', 'h') {
            Some(PhysicConst::PlanckConstant)
        } else if glyph2(s, '\\', 'G') {
            Some(PhysicConst::Gravitational)
        } else if glyph3(s, '\\', 'm', '\u{3bc}') {
            Some(PhysicConst::MuonMass)
        } else if glyph3(s, '\\', 'm', 'e') {
            Some(PhysicConst::ElectronMass)
        } else if glyph3(s, '\\', 'm', 'p') {
            Some(PhysicConst::ProtonMass)
        } else {
            None
        }
    }

    open spec fn symbol(&self) -> char {
        match self {
            PhysicConst::SpeedOfLight => 'c',
            PhysicConst::PlanckConstant => 'h',
            PhysicConst::Gravitational => 'G',
            PhysicConst::MuonMass => '\u{3bc}',
            PhysicConst::ElectronMass => 'e',
            PhysicConst::ProtonMass => 'p',
        }
    }

    fn from_chars(input: &[char]) -> (constant: Option<PhysicConst>) {
        if is_glyph2(input, '\\', 'c') {
            Some(PhysicConst::SpeedOfLight)
        } else if is_glyph2(input, '\\', 'h') {
            Some(PhysicConst::PlanckConstant)
        } else if is_glyph2(input, '\\', 'G') {
            Some(PhysicConst::Gravitational)
        } else if is_glyph3(input, '\\', 'm', '\u{3bc}') {
            Some(PhysicConst::MuonMass)
        } else if is_glyph3(input, '\\', 'm', 'e') {
            Some(PhysicConst::ElectronMass)
        } else if is_glyph3(input, '\\', 'm', 'p') {
            Some(PhysicConst::ProtonMass)
        } else {
            None
        }
    }

    fn to_char(&self) -> (c: char) {
        match self {
            PhysicConst::SpeedOfLight => 'c',
            PhysicConst::PlanckConstant => 'h',
            PhysicConst::Gravitational => 'G',
            PhysicConst::MuonMass => '\u{3bc}',
            PhysicConst::ElectronMass => 'e',
            PhysicConst::ProtonMass => 'p',
        }
    }
}

impl Constant {
    /// The character by which this constant is written out.
    pub open spec fn symbol(self) -> char {
        match self {
            Constant::Math(c) => c.symbol(),
            Constant::Physic(c) => c.symbol(),
        }
    }

    /// The character by which this constant is written out.
    pub fn to_char(&self) -> (c: char)
        ensures
            c == self.symbol(),
    {
        match self {
            Constant::Math(k) => k.to_char(),
            Constant::Physic(k) => k.to_char(),
        }
    }
}

} // verus!
