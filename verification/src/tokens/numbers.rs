//! Number literals: digits in any base up to 36, and natural, integer and
//! real numbers in base ten.

use vstd::prelude::*;
use crate::tokens::alphabet::{char_is_digit, is_digit};
use crate::util::text::chars_of;

verus! {

/// The base in which number literals are read.
pub const DEFAULT_BASE: u8 = 10;

/// The value of `c` as a digit, whatever the base: `0` to `9` are 0 to 9,
/// and the letters `a` to `z`, small or capital, are 10 to 35.
pub open spec fn digit_value_of(c: char) -> Option<u8> {
    if '0' <= c && c <= '9' {
        Some((c as u8 - '0' as u8) as u8)
    } else if 'a' <= c && c <= 'z' {
        Some((c as u8 - 'a' as u8 + 10) as u8)
    } else if 'A' <= c && c <= 'Z' {
        Some((c as u8 - 'A' as u8 + 10) as u8)
    } else {
        None
    }
}

/// The value of `c` as a digit of base `base`: its value as a digit where
/// that is below the base.
pub open spec fn digit_in_base(c: char, base: u8) -> Option<u8> {
    match digit_value_of(c) {
        Some(value) => if value < base {
            Some(value)
        } else {
            None
        },
        None => None,
    }
}

/// One digit of a number, held as its value.
#[derive(Debug, Clone, Copy, PartialEq, Eq, Structural)]
pub struct Digit(pub u8);

impl Digit {
    /// The digit that `c` is in base `base`, for a base from 2 to 36.
    pub fn from_char(c: char, base: u8) -> (digit: Option<Digit>)
        requires
            2 <= base <= 36,
        ensures
            digit == (match digit_in_base(c, base) {
                Some(value) => Some(Digit(value)),
                None => None,
            }),
    {
        let value: u8 = if '0' <= c && c <= '9' {
            c as u8 - '0' as u8
        } else if 'a' <= c && c <= 'z' {
            c as u8 - 'a' as u8 + 10
        } else if 'A' <= c && c <= 'Z' {
            c as u8 - 'A' as u8 + 10
        } else {
            return None;
        };
        if value < base {
            Some(Digit(value))
        } else {
            None
        }
    }

    /// The value of the digit.
    pub fn value(&self) -> (value: u8)
        ensures
            value == self.0,
    {
        self.0
    }
}

/// The values of the decimal digits `text`.
pub open spec fn decimal_values(text: Seq<char>) -> Seq<u8> {
    text.map_values(|c: char| (c as u8 - '0' as u8) as u8)
}

/// Whether `text` holds decimal digits only.
pub open spec fn all_decimal(text: Seq<char>) -> bool {
    forall|k: int| 0 <= k < text.len() ==> is_digit(#[trigger] text[k])
}

/// What `text` is as a natural number: its digits, where it is not empty
/// and holds decimal digits only.
pub open spec fn natural_of(text: Seq<char>) -> Option<Seq<u8>> {
    if text.len() > 0 && all_decimal(text) {
        Some(decimal_values(text))
    } else {
        None
    }
}

/// What `text` is as an integer: a natural number, or a minus sign and a
/// natural number. The first part of the pair tells whether it is negative.
pub open spec fn integer_of(text: Seq<char>) -> Option<(bool, Seq<u8>)> {
    if text.len() > 0 && text[0] == '-' {
        match natural_of(text.subrange(1, text.len() as int)) {
            Some(digits) => Some((true, digits)),
            None => None,
        }
    } else {
        match natural_of(text) {
            Some(digits) => Some((false, digits)),
            None => None,
        }
    }
}

/// The index of the first dot in `text`, or its length where it has none.
pub open spec fn first_dot(text: Seq<char>) -> int
    decreases text.len(),
{
    if text.len() == 0 {
        0
    } else if text[0] == '.' {
        0
    } else {
        1 + first_dot(text.drop_first())
    }
}

/// What `text` is as a real number: an integer before the first dot and a
/// natural number behind it.
pub open spec fn real_of(text: Seq<char>) -> Option<((bool, Seq<u8>), Seq<u8>)> {
    let dot = first_dot(text);
    if dot >= text.len() {
        None
    } else {
        match integer_of(text.subrange(0, dot)) {
            None => None,
            Some(whole) => match natural_of(text.subrange(dot + 1, text.len() as int)) {
                None => None,
                Some(fraction) => Some((whole, fraction)),
            },
        }
    }
}

/// What the number types share: each is read from a whole text.
pub trait NumberTrait: Sized + View {
    /// What `text` holds as a number of this type, if it is one.
    spec fn read(text: Seq<char>) -> Option<Self::V>;

    /// Reads a whole text as a number of this type.
    fn from_chars(text: &[char]) -> (number: Option<Self>)
        ensures
            match number {
                Some(number) => Self::read(text@) == Some(number@),
                None => Self::read(text@) is None,
            },
    ;
}

/// A natural number, held as its decimal digits, the first digit first.
#[derive(Debug, Clone, PartialEq)]
pub struct Natural {
    pub digits: Vec<Digit>,
}

/// An integer: a sign and a natural number.
#[derive(Debug, Clone, PartialEq)]
pub struct Integer {
    pub sign: bool,
    pub value: Natural,
}

/// A real number: an integer part and the digits of a fraction.
#[derive(Debug, Clone, PartialEq)]
pub struct Real {
    pub integer_part: Integer,
    pub fractional_part: Natural,
}

impl View for Natural {
    type V = Seq<u8>;

    open spec fn view(&self) -> Seq<u8> {
        self.digits@.map_values(|digit: Digit| digit.0)
    }
}

impl View for Integer {
    type V = (bool, Seq<u8>);

    open spec fn view(&self) -> (bool, Seq<u8>) {
        (self.sign, self.value@)
    }
}

impl View for Real {
    type V = ((bool, Seq<u8>), Seq<u8>);

    open spec fn view(&self) -> ((bool, Seq<u8>), Seq<u8>) {
        (self.integer_part@, self.fractional_part@)
    }
}

impl NumberTrait for Natural {
    open spec fn read(text: Seq<char>) -> Option<Seq<u8>> {
        natural_of(text)
    }

    fn from_chars(text: &[char]) -> (number: Option<Natural>) {
        if text.len() == 0 {
            return None;
        }
        let mut digits: Vec<Digit> = Vec::new();
        let mut i: usize = 0;
        while i < text.len()
            invariant
                0 <= i <= text@.len(),
                digits@.len() == i,
                forall|k: int| 0 <= k < i ==> is_digit(#[trigger] text@[k]),
                forall|k: int|
                    0 <= k < i ==> (#[trigger] digits@[k]).0 == (text@[k] as u8 - '0' as u8) as u8,
            decreases text@.len() - i,
        {
            let c = text[i];
            if !char_is_digit(c) {
                return None;
            }
            digits.push(Digit(c as u8 - '0' as u8));
            i = i + 1;
        }
        let number = Natural { digits };
        assert(number@ =~= decimal_values(text@));
        Some(number)
    }
}

impl NumberTrait for Integer {
    open spec fn read(text: Seq<char>) -> Option<(bool, Seq<u8>)> {
        integer_of(text)
    }

    fn from_chars(text: &[char]) -> (number: Option<Integer>) {
        if text.len() > 0 && text[0] == '-' {
            let rest = vstd::slice::slice_subrange(text, 1, text.len());
            match Natural::from_chars(rest) {
                Some(value) => Some(Integer { sign: true, value }),
                None => None,
            }
        } else {
            match Natural::from_chars(text) {
                Some(value) => Some(Integer { sign: false, value }),
                None => None,
            }
        }
    }
}

/// The index of the first dot in `text`, or its length where it has none.
pub fn find_dot(text: &[char]) -> (dot: usize)
    ensures
        dot == first_dot(text@),
        dot <= text@.len(),
{
    let mut i: usize = 0;
    assert(text@.subrange(0, text@.len() as int) =~= text@);
    while i < text.len() && text[i] != '.'
        invariant
            0 <= i <= text@.len(),
            first_dot(text@) == i + first_dot(text@.subrange(i as int, text@.len() as int)),
        decreases text@.len() - i,
    {
        proof {
            let rest = text@.subrange(i as int, text@.len() as int);
            assert(rest.drop_first() =~= text@.subrange(i + 1, text@.len() as int));
        }
        i = i + 1;
    }
    i
}

impl NumberTrait for Real {
    open spec fn read(text: Seq<char>) -> Option<((bool, Seq<u8>), Seq<u8>)> {
        real_of(text)
    }

    fn from_chars(text: &[char]) -> (number: Option<Real>) {
        let dot = find_dot(text);
        if dot >= text.len() {
            return None;
        }
        let whole = vstd::slice::slice_subrange(text, 0, dot);
        let fraction = vstd::slice::slice_subrange(text, dot + 1, text.len());
        match Integer::from_chars(whole) {
            None => None,
            Some(integer_part) => match Natural::from_chars(fraction) {
                None => None,
                Some(fractional_part) => Some(Real { integer_part, fractional_part }),
            },
        }
    }
}

/// Reads a text as a natural number in base ten.
pub fn str_to_n(string: &str) -> (number: Option<Natural>)
    ensures
        match number {
            Some(number) => natural_of(string@) == Some(number@),
            None => natural_of(string@) is None,
        },
{
    let chars = chars_of(string);
    Natural::from_chars(chars.as_slice())
}

/// Reads a text as an integer in base ten.
pub fn str_to_z(string: &str) -> (number: Option<Integer>)
    ensures
        match number {
            Some(number) => integer_of(string@) == Some(number@),
            None => integer_of(string@) is None,
        },
{
    let chars = chars_of(string);
    Integer::from_chars(chars.as_slice())
}

/// Reads a text as a real number in base ten.
pub fn str_to_r(string: &str) -> (number: Option<Real>)
    ensures
        match number {
            Some(number) => real_of(string@) == Some(number@),
            None => real_of(string@) is None,
        },
{
    let chars = chars_of(string);
    Real::from_chars(chars.as_slice())
}

} // verus!
