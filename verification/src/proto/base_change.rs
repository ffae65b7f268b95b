//! Conversion of whole numbers between bases. Digits are `0` to `9` for 0
//! to 9, `A` to `Z` for 10 to 35 and `a` to `z` for 36 to 61.

use vstd::prelude::*;
use vstd::string::StringExecFns;
use crate::util::text::{chars_of, push_char};

verus! {

/// The value of `c` as a digit, if it is one.
pub open spec fn digit_of(c: char) -> Option<u8> {
    if '0' <= c && c <= '9' {
        Some((c as u8 - '0' as u8) as u8)
    } else if 'A' <= c && c <= 'Z' {
        Some((c as u8 - 'A' as u8 + 10) as u8)
    } else if 'a' <= c && c <= 'z' {
        Some((c as u8 - 'a' as u8 + 36) as u8)
    } else {
        None
    }
}

/// Whether every character of `text` is a digit.
pub open spec fn all_digits(text: Seq<char>) -> bool {
    forall|k: int| 0 <= k < text.len() ==> digit_of(#[trigger] text[k]) is Some
}

/// The number that the digits `text` denote in base `base`, the first
/// digit being the most significant one.
pub open spec fn base_value(text: Seq<char>, base: int) -> int
    decreases text.len(),
{
    if text.len() == 0 {
        0
    } else {
        base_value(text.drop_last(), base) * base + (match digit_of(text.last()) {
            Some(digit) => digit as int,
            None => 0,
        })
    }
}

/// The character of the digit `digit` as it is written out: `0` to `9`,
/// and from ten on the characters from `A` onwards.
pub open spec fn digit_char(digit: int) -> char {
    if digit < 10 {
        (digit + 48) as char
    } else {
        (digit - 10 + 65) as char
    }
}

/// The digits of `n` in base `base`, the most significant digit first;
/// zero has no digits.
pub open spec fn digits_in_base(n: nat, base: nat) -> Seq<char>
    decreases n,
{
    if n == 0 || base < 2 {
        Seq::empty()
    } else {
        proof {
            vstd::arithmetic::div_mod::lemma_div_decreases(n as int, base as int);
            vstd::arithmetic::div_mod::lemma_div_pos_is_pos(n as int, base as int);
        }
        digits_in_base(n / base, base).push(digit_char((n % base) as int))
    }
}

/// The value of a character as a digit.
pub fn digit_value(c: char) -> (value: Option<u8>)
    ensures
        value == digit_of(c),
{
    if '0' <= c && c <= '9' {
        Some(c as u8 - '0' as u8)
    } else if 'A' <= c && c <= 'Z' {
        Some(c as u8 - 'A' as u8 + 10)
    } else if 'a' <= c && c <= 'z' {
        Some(c as u8 - 'a' as u8 + 36)
    } else {
        None
    }
}

/// A number is no smaller than the number that its first digits denote.
pub proof fn lemma_base_value_grows(text: Seq<char>, base: int, i: int)
    requires
        base >= 1,
        0 <= i <= text.len(),
    ensures
        0 <= base_value(text.take(i), base) <= base_value(text, base),
    decreases text.len() - i,
{
    if i == 0 {
        lemma_base_value_positive(text, base);
    } else {
        lemma_base_value_positive(text.take(i), base);
    }
    if i < text.len() {
        lemma_base_value_grows(text, base, i + 1);
        let longer = text.take(i + 1);
        assert(longer.drop_last() =~= text.take(i));
        let shorter = base_value(text.take(i), base);
        assert(shorter * base >= shorter) by (nonlinear_arith)
            requires
                shorter >= 0,
                base >= 1,
        ;
    } else {
        assert(text.take(i) =~= text);
    }
}

/// No digits denote a negative number.
pub proof fn lemma_base_value_positive(text: Seq<char>, base: int)
    requires
        base >= 0,
    ensures
        0 <= base_value(text, base),
    decreases text.len(),
{
    if text.len() > 0 {
        lemma_base_value_positive(text.drop_last(), base);
        let rest = base_value(text.drop_last(), base);
        assert(rest * base >= 0) by (nonlinear_arith)
            requires
                rest >= 0,
                base >= 0,
        ;
    }
}

/// Reads the digits `chars` as a number in base `src_base`, or finds that
/// a character is no digit or that the number does not fit in 32 bits.
pub fn checked_int_b10(chars: &[char], src_base: u8) -> (value: Option<u32>)
    ensures
        value == (if all_digits(chars@) && base_value(chars@, src_base as int) <= u32::MAX {
            Some(base_value(chars@, src_base as int) as u32)
        } else {
            None
        }),
{
    let mut n: u32 = 0;
    let mut i: usize = 0;
    assert(chars@.take(0) =~= Seq::<char>::empty());
    while i < chars.len()
        invariant
            0 <= i <= chars@.len(),
            forall|k: int| 0 <= k < i ==> digit_of(#[trigger] chars@[k]) is Some,
            n == base_value(chars@.take(i as int), src_base as int),
        decreases chars@.len() - i,
    {
        let digit = match digit_value(chars[i]) {
            Some(digit) => digit,
            None => {
                return None;
            },
        };
        proof {
            assert(chars@.take(i + 1).drop_last() =~= chars@.take(i as int));
            assert(0 <= (n as int) * (src_base as int) <= 0xffff_ffff * 255) by (nonlinear_arith)
                requires
                    0 <= n <= 0xffff_ffff,
                    0 <= src_base <= 255,
            ;
        }
        let wide: u64 = (n as u64) * (src_base as u64) + (digit as u64);
        if wide > u32::MAX as u64 {
            proof {
                assert(chars@.take(i + 1).last() == chars@[i as int]);
                assert(wide == base_value(chars@.take(i + 1), src_base as int));
                if src_base >= 1 {
                    lemma_base_value_grows(chars@, src_base as int, i + 1);
                } else {
                    assert((n as int) * (src_base as int) == 0) by (nonlinear_arith)
                        requires
                            src_base == 0,
                    ;
                }
            }
            return None;
        }
        n = wide as u32;
        i = i + 1;
    }
    assert(chars@.take(i as int) =~= chars@);
    Some(n)
}

/// Reads the text `src` as a number in base `src_base`, or finds that a
/// character is no digit or that the number does not fit in 32 bits.
pub fn checked_src_int_b10(src: &str, src_base: u8) -> (value: Option<u32>)
    ensures
        value == (if all_digits(src@) && base_value(src@, src_base as int) <= u32::MAX {
            Some(base_value(src@, src_base as int) as u32)
        } else {
            None
        }),
{
    let chars = chars_of(src);
    checked_int_b10(chars.as_slice(), src_base)
}

/// Converts the whole part of a number from base `src_base` to base ten.
/// Every character of `src` must be a digit and the number must fit in 32
/// bits.
pub fn src_int_b10(src: &str, src_base: u8) -> (value: u32)
    requires
        all_digits(src@),
        base_value(src@, src_base as int) <= u32::MAX,
    ensures
        value == base_value(src@, src_base as int),
{
    proof {
        lemma_base_value_positive(src@, src_base as int);
    }
    match checked_src_int_b10(src, src_base) {
        Some(value) => value,
        None => 0,
    }
}

/// Appends the digits of `n` in base `dst_base` to `text`.
fn push_digits(text: &mut String, n: u32, dst_base: u8)
    requires
        2 <= dst_base <= 201,
    ensures
        final(text)@ == old(text)@ + digits_in_base(n as nat, dst_base as nat),
    decreases n,
{
    if n > 0 {
        proof {
            vstd::arithmetic::div_mod::lemma_div_decreases(n as int, dst_base as int);
        }
        push_digits(text, n / dst_base as u32, dst_base);
        let digit = (n % dst_base as u32) as u8;
        let c = if digit < 10 {
            (digit + 48) as char
        } else {
            (digit - 10 + 65) as char
        };
        push_char(text, c);
        assert((old(text)@ + digits_in_base((n / dst_base as u32) as nat, dst_base as nat)).push(c)
            =~= old(text)@ + digits_in_base(n as nat, dst_base as nat));
    } else {
        assert(old(text)@ + Seq::<char>::empty() =~= old(text)@);
    }
}

/// Converts a whole number from base ten to base `dst_base`, from 2 to
/// 201, as a text of digits; zero gives the empty text.
pub fn int_b10_dst(n: u32, dst_base: u8) -> (digits: String)
    requires
        2 <= dst_base <= 201,
    ensures
        digits@ == digits_in_base(n as nat, dst_base as nat),
{
    let mut digits = String::new();
    push_digits(&mut digits, n, dst_base);
    assert(Seq::<char>::empty() + digits_in_base(n as nat, dst_base as nat) =~= digits_in_base(
        n as nat,
        dst_base as nat,
    ));
    digits
}

/// Whether `c` parts the whole part of a number from its fraction.
pub open spec fn is_separator(c: char) -> bool {
    c == '.' || c == ','
}

/// The index of the first separator in `text`, or its length where it has
/// none.
pub open spec fn separator_at(text: Seq<char>) -> int
    decreases text.len(),
{
    if text.len() == 0 || is_separator(text[0]) {
        0
    } else {
        1 + separator_at(text.drop_first())
    }
}

/// The whole part of `text`: what stands before its first separator.
pub open spec fn whole_part(text: Seq<char>) -> Seq<char> {
    text.subrange(0, separator_at(text))
}

/// The fraction of `text`: what stands behind its first separator.
pub open spec fn fraction_part(text: Seq<char>) -> Seq<char> {
    if separator_at(text) < text.len() {
        text.subrange(separator_at(text) + 1, text.len() as int)
    } else {
        Seq::empty()
    }
}

/// Whether `base` is a base that numbers are converted from and to.
pub open spec fn valid_base(base: u8) -> bool {
    2 <= base <= 62
}

/// Whether no character of `text` is a digit too large for `base`. A
/// character that is no digit counts as zero.
pub open spec fn fits_base(text: Seq<char>, base: u8) -> bool {
    forall|k: int|
        0 <= k < text.len() ==> (match digit_of(#[trigger] text[k]) {
            Some(digit) => digit < base,
            None => true,
        })
}

/// The separator is found within the text, and no separator stands before
/// it.
pub proof fn lemma_separator_at(text: Seq<char>)
    ensures
        0 <= separator_at(text) <= text.len(),
        separator_at(text) < text.len() ==> is_separator(text[separator_at(text)]),
        forall|k: int| 0 <= k < separator_at(text) ==> !is_separator(#[trigger] text[k]),
    decreases text.len(),
{
    if text.len() > 0 && !is_separator(text[0]) {
        lemma_separator_at(text.drop_first());
        assert forall|k: int| 0 <= k < separator_at(text) implies !is_separator(
            #[trigger] text[k],
        ) by {
            if k > 0 {
                assert(text[k] == text.drop_first()[k - 1]);
            }
        }
    }
}

/// Splits a number at its first separator into its whole part and its
/// fraction.
pub fn split_number(src: &str) -> (parts: (Vec<char>, Vec<char>))
    ensures
        parts.0@ == whole_part(src@),
        parts.1@ == fraction_part(src@),
{
    let chars = chars_of(src);
    let mut whole: Vec<char> = Vec::new();
    let mut fraction: Vec<char> = Vec::new();
    let mut i: usize = 0;
    proof {
        lemma_separator_at(chars@);
    }
    while i < chars.len() && !(chars[i] == '.' || chars[i] == ',')
        invariant
            0 <= i <= chars@.len(),
            i <= separator_at(chars@) <= chars@.len(),
            forall|k: int| 0 <= k < separator_at(chars@) ==> !is_separator(#[trigger] chars@[k]),
            separator_at(chars@) < chars@.len() ==> is_separator(chars@[separator_at(chars@)]),
            whole@ == chars@.subrange(0, i as int),
        decreases chars@.len() - i,
    {
        whole.push(chars[i]);
        assert(whole@ =~= chars@.subrange(0, i + 1));
        i = i + 1;
    }
    assert(i == separator_at(chars@));
    if i < chars.len() {
        let mut j: usize = i + 1;
        while j < chars.len()
            invariant
                i < j <= chars@.len(),
                fraction@ == chars@.subrange(i + 1, j as int),
            decreases chars@.len() - j,
        {
            fraction.push(chars[j]);
            assert(fraction@ =~= chars@.subrange(i + 1, j + 1));
            j = j + 1;
        }
    } else {
        assert(fraction@ =~= Seq::<char>::empty());
    }
    (whole, fraction)
}

/// Tests that no character of `chars` is a digit too large for `base`.
pub fn chars_fit_base(chars: &[char], base: u8) -> (fits: bool)
    ensures
        fits == fits_base(chars@, base),
{
    let mut i: usize = 0;
    while i < chars.len()
        invariant
            0 <= i <= chars@.len(),
            forall|k: int|
                0 <= k < i ==> (match digit_of(#[trigger] chars@[k]) {
                    Some(digit) => digit < base,
                    None => true,
                }),
        decreases chars@.len() - i,
    {
        match digit_value(chars[i]) {
            Some(digit) => {
                if digit >= base {
                    return false;
                }
            },
            None => {},
        }
        i = i + 1;
    }
    true
}

/// Converts the whole part of `src`, a number in base `src_base`, to base
/// `new_base`. The bases must lie between 2 and 62 and no digit may be too
/// large for the source base, else an error message is returned. Where
/// these hold, the whole part must consist of digits and fit in 32 bits.
pub fn str_to_num_from_base(src: &str, src_base: u8, new_base: u8) -> (outcome: Result<
    String,
    String,
>)
    requires
        valid_base(src_base) && valid_base(new_base) && fits_base(src@, src_base) ==> all_digits(
            whole_part(src@),
        ) && base_value(whole_part(src@), src_base as int) <= u32::MAX,
    ensures
        match outcome {
            Ok(digits) => valid_base(src_base) && valid_base(new_base) && fits_base(src@, src_base)
                && digits@ == digits_in_base(
                base_value(whole_part(src@), src_base as int) as nat,
                new_base as nat,
            ),
            Err(message) => if !(valid_base(src_base) && valid_base(new_base)) {
                message@ == "Invalid base (must be between 2 & 62)"@
            } else {
                !fits_base(src@, src_base) && message@ == "Invalid character for the given base"@
            },
        },
{
    if src_base < 2 || src_base > 62 || new_base < 2 || new_base > 62 {
        return Err(String::from_str("Invalid base (must be between 2 & 62)"));
    }
    let chars = chars_of(src);
    if !chars_fit_base(chars.as_slice(), src_base) {
        return Err(String::from_str("Invalid character for the given base"));
    }
    let parts = split_number(src);
    match checked_int_b10(parts.0.as_slice(), src_base) {
        Some(value) => {
            proof {
                lemma_base_value_positive(whole_part(src@), src_base as int);
            }
            Ok(int_b10_dst(value, new_base))
        },
        None => Ok(String::new()),
    }
}

} // verus!
