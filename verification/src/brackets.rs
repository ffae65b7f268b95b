//! The bracket validator: every closing bracket must pair with the bracket
//! opened last, and no bracket may stay open.

use vstd::prelude::*;
use crate::error::AppError;
use crate::tokens::alphabet::{BracketKind, Token};

verus! {

/// The shapes of bracket that are paired. Chevrons are brackets only in raw
/// text; among tokens `<` and `>` are relational operators.
#[derive(Debug, Clone, Copy, PartialEq, Eq, Structural)]
pub enum BracketShape {
    Parenthesis,
    Square,
    Curly,
    Chevron,
}

/// What one position of a sequence means to the pairing of brackets.
#[derive(Debug, Clone, Copy, PartialEq, Eq, Structural)]
pub enum BracketMark {
    Open(BracketShape),
    Close(BracketShape),
    Other,
}

impl BracketKind {
    /// The shape of this kind of bracket.
    pub open spec fn shape(self) -> BracketShape {
        match self {
            BracketKind::Parenthesis => BracketShape::Parenthesis,
            BracketKind::Square => BracketShape::Square,
            BracketKind::Curly => BracketShape::Curly,
        }
    }
}

/// What the character `c` of a raw text means to the pairing.
pub open spec fn char_mark(c: char) -> BracketMark {
    if c == '(' {
        BracketMark::Open(BracketShape::Parenthesis)
    } else if c == '[' {
        BracketMark::Open(BracketShape::Square)
    } else if c == '{' {
        BracketMark::Open(BracketShape::Curly)
    } else if c == '<' {
        BracketMark::Open(BracketShape::Chevron)
    } else if c == ')' {
        BracketMark::Close(BracketShape::Parenthesis)
    } else if c == ']' {
        BracketMark::Close(BracketShape::Square)
    } else if c == '}' {
        BracketMark::Close(BracketShape::Curly)
    } else if c == '>' {
        BracketMark::Close(BracketShape::Chevron)
    } else {
        BracketMark::Other
    }
}

/// What the token `token` means to the pairing.
pub open spec fn token_mark(token: Token) -> BracketMark {
    match token {
        Token::OpenBracket(kind) => BracketMark::Open(kind.shape()),
        Token::CloseBracket(kind) => BracketMark::Close(kind.shape()),
        _ => BracketMark::Other,
    }
}

/// The marks of a raw text, one for each character.
pub open spec fn char_marks(text: Seq<char>) -> Seq<BracketMark> {
    text.map_values(|c: char| char_mark(c))
}

/// The marks of a token sequence, one for each token.
pub open spec fn token_marks(tokens: Seq<Token>) -> Seq<BracketMark> {
    tokens.map_values(|token: Token| token_mark(token))
}

/// The outcome of pairing `marks` from index `i` on, when the brackets in
/// `open` (each with the position where it was opened, the last opened
/// last) are waiting to be closed. The first error ends the scan.
pub open spec fn pairing_from(
    marks: Seq<BracketMark>,
    i: int,
    open: Seq<(BracketShape, usize)>,
) -> Result<(), AppError>
    decreases marks.len() - i,
{
    if i < 0 || i >= marks.len() {
        if open.len() == 0 {
            Ok(())
        } else {
            Err(AppError::UnclosedOpeningBracket(open.last().1))
        }
    } else {
        match marks[i] {
            BracketMark::Open(shape) => pairing_from(marks, i + 1, open.push((shape, i as usize))),
            BracketMark::Close(shape) => if open.len() == 0 {
                Err(AppError::UnmatchedClosingBracket(i as usize))
            } else if open.last().0 != shape {
                Err(AppError::MismatchedBracketType(open.last().1, i as usize))
            } else {
                pairing_from(marks, i + 1, open.drop_last())
            },
            BracketMark::Other => pairing_from(marks, i + 1, open),
        }
    }
}

/// The outcome of pairing the brackets of `marks`.
pub open spec fn pairing(marks: Seq<BracketMark>) -> Result<(), AppError> {
    pairing_from(marks, 0, Seq::empty())
}

/// Reads a character of raw text as a bracket mark.
pub fn mark_of_char(c: char) -> (mark: BracketMark)
    ensures
        mark == char_mark(c),
{
    if c == '(' {
        BracketMark::Open(BracketShape::Parenthesis)
    } else if c == '[' {
        BracketMark::Open(BracketShape::Square)
    } else if c == '{' {
        BracketMark::Open(BracketShape::Curly)
    } else if c == '<' {
        BracketMark::Open(BracketShape::Chevron)
    } else if c == ')' {
        BracketMark::Close(BracketShape::Parenthesis)
    } else if c == ']' {
        BracketMark::Close(BracketShape::Square)
    } else if c == '}' {
        BracketMark::Close(BracketShape::Curly)
    } else if c == '>' {
        BracketMark::Close(BracketShape::Chevron)
    } else {
        BracketMark::Other
    }
}

/// Reads a token as a bracket mark.
pub fn mark_of_token(token: &Token) -> (mark: BracketMark)
    ensures
        mark == token_mark(*token),
{
    match token {
        Token::OpenBracket(BracketKind::Parenthesis) => BracketMark::Open(
            BracketShape::Parenthesis,
        ),
        Token::OpenBracket(BracketKind::Square) => BracketMark::Open(BracketShape::Square),
        Token::OpenBracket(BracketKind::Curly) => BracketMark::Open(BracketShape::Curly),
        Token::CloseBracket(BracketKind::Parenthesis) => BracketMark::Close(
            BracketShape::Parenthesis,
        ),
        Token::CloseBracket(BracketKind::Square) => BracketMark::Close(BracketShape::Square),
        Token::CloseBracket(BracketKind::Curly) => BracketMark::Close(BracketShape::Curly),
        _ => BracketMark::Other,
    }
}

/// Pairs the brackets of a sequence of marks with a stack of the brackets
/// that are open, and stops at the first error.
pub fn check_marks(marks: &Vec<BracketMark>) -> (outcome: Result<(), AppError>)
    ensures
        outcome == pairing(marks@),
{
    let mut open: Vec<(BracketShape, usize)> = Vec::new();
    let mut i: usize = 0;
    while i < marks.len()
        invariant
            0 <= i <= marks@.len(),
            pairing(marks@) == pairing_from(marks@, i as int, open@),
        decreases marks@.len() - i,
    {
        match marks[i] {
            BracketMark::Open(shape) => {
                open.push((shape, i));
            },
            BracketMark::Close(shape) => {
                match open.pop() {
                    None => {
                        return Err(AppError::UnmatchedClosingBracket(i));
                    },
                    Some(top) => {
                        if top.0 != shape {
                            return Err(AppError::MismatchedBracketType(top.1, i));
                        }
                    },
                }
            },
            BracketMark::Other => {},
        }
        i = i + 1;
    }
    match open.pop() {
        Some(top) => Err(AppError::UnclosedOpeningBracket(top.1)),
        None => Ok(()),
    }
}

/// Checks that the brackets of a raw text pair up: parentheses, square
/// brackets, curly brackets and chevrons. Positions count characters.
pub fn check_pair_brackets(src: &str) -> (outcome: Result<(), AppError>)
    ensures
        outcome == pairing(char_marks(src@)),
{
    let mut marks: Vec<BracketMark> = Vec::new();
    for c in it: src.chars()
        invariant
            it.seq() == src@,
            marks@ == char_marks(it.seq().take(it.index())),
    {
        marks.push(mark_of_char(c));
        assert(marks@ =~= char_marks(it.seq().take(it.index() + 1)));
    }
    assert(src@.take(src@.len() as int) == src@);
    check_marks(&marks)
}

/// Checks that the brackets of a sequence of characters pair up, like
/// `check_pair_brackets`.
pub fn check_char_brackets(chars: &[char]) -> (outcome: Result<(), AppError>)
    ensures
        outcome == pairing(char_marks(chars@)),
{
    let mut marks: Vec<BracketMark> = Vec::new();
    let mut i: usize = 0;
    while i < chars.len()
        invariant
            0 <= i <= chars@.len(),
            marks@ == char_marks(chars@.take(i as int)),
        decreases chars@.len() - i,
    {
        marks.push(mark_of_char(chars[i]));
        assert(marks@ =~= char_marks(chars@.take(i + 1)));
        i = i + 1;
    }
    assert(chars@.take(chars@.len() as int) == chars@);
    check_marks(&marks)
}

/// Checks that the brackets of a token sequence pair up. Positions count
/// tokens.
pub fn check_token_brackets(tokens: &[Token]) -> (outcome: Result<(), AppError>)
    ensures
        outcome == pairing(token_marks(tokens@)),
{
    let mut marks: Vec<BracketMark> = Vec::new();
    let mut i: usize = 0;
    while i < tokens.len()
        invariant
            0 <= i <= tokens@.len(),
            marks@ == token_marks(tokens@.take(i as int)),
        decreases tokens@.len() - i,
    {
        marks.push(mark_of_token(&tokens[i]));
        assert(marks@ =~= token_marks(tokens@.take(i + 1)));
        i = i + 1;
    }
    assert(tokens@.take(tokens@.len() as int) == tokens@);
    check_marks(&marks)
}

/// The shapes of the brackets that are open, without their positions.
pub open spec fn shapes(open: Seq<(BracketShape, usize)>) -> Seq<BracketShape> {
    open.map_values(|entry: (BracketShape, usize)| entry.0)
}

/// Whether every bracket in `open` was opened at the position it is held
/// with, before index `i`.
pub open spec fn opened_before(marks: Seq<BracketMark>, i: int, open: Seq<(BracketShape, usize)>)
    -> bool {
    forall|k: int|
        0 <= k < open.len() ==> 0 <= (#[trigger] open[k]).1 < i && marks[open[k].1 as int]
            == BracketMark::Open(open[k].0)
}

/// Every error points at the brackets it speaks of: an unmatched closing
/// bracket is a closing bracket, a mismatch is an opening bracket and a
/// later closing bracket of another shape, and an unclosed bracket is an
/// opening bracket.
pub proof fn lemma_pairing_from_errors(
    marks: Seq<BracketMark>,
    i: int,
    open: Seq<(BracketShape, usize)>,
)
    requires
        0 <= i <= marks.len() <= usize::MAX,
        opened_before(marks, i, open),
    ensures
        match pairing_from(marks, i, open) {
            Ok(_) => true,
            Err(AppError::UnmatchedClosingBracket(at)) => at < marks.len() && marks[at as int]
                is Close,
            Err(AppError::MismatchedBracketType(from, to)) => {
                &&& from < to < marks.len()
                &&& marks[from as int] matches BracketMark::Open(opened)
                &&& marks[to as int] matches BracketMark::Close(closed)
                &&& opened != closed
            },
            Err(AppError::UnclosedOpeningBracket(at)) => at < marks.len() && marks[at as int]
                is Open,
            Err(_) => false,
        },
    decreases marks.len() - i,
{
    if i < marks.len() {
        match marks[i] {
            BracketMark::Open(shape) => {
                let next = open.push((shape, i as usize));
                assert forall|k: int| 0 <= k < next.len() implies 0 <= (#[trigger] next[k]).1 < i
                    + 1 && marks[next[k].1 as int] == BracketMark::Open(next[k].0) by {
                    if k < open.len() {
                        assert(next[k] == open[k]);
                    }
                }
                lemma_pairing_from_errors(marks, i + 1, next);
            },
            BracketMark::Close(shape) => {
                if open.len() > 0 && open.last().0 == shape {
                    let next = open.drop_last();
                    assert forall|k: int| 0 <= k < next.len() implies 0 <= (#[trigger] next[k]).1
                        < i + 1 && marks[next[k].1 as int] == BracketMark::Open(next[k].0) by {
                        assert(next[k] == open[k]);
                    }
                    lemma_pairing_from_errors(marks, i + 1, next);
                } else if open.len() > 0 {
                    assert(open[open.len() - 1] == open.last());
                }
            },
            BracketMark::Other => {
                assert forall|k: int| 0 <= k < open.len() implies 0 <= (#[trigger] open[k]).1 < i
                    + 1 && marks[open[k].1 as int] == BracketMark::Open(open[k].0) by {}
                lemma_pairing_from_errors(marks, i + 1, open);
            },
        }
    } else if open.len() > 0 {
        assert(open[open.len() - 1] == open.last());
    }
}

/// Every error of the pairing points at the brackets it speaks of.
pub proof fn lemma_pairing_errors(marks: Seq<BracketMark>)
    requires
        marks.len() <= usize::MAX,
    ensures
        match pairing(marks) {
            Ok(_) => true,
            Err(AppError::UnmatchedClosingBracket(at)) => at < marks.len() && marks[at as int]
                is Close,
            Err(AppError::MismatchedBracketType(from, to)) => {
                &&& from < to < marks.len()
                &&& marks[from as int] matches BracketMark::Open(opened)
                &&& marks[to as int] matches BracketMark::Close(closed)
                &&& opened != closed
            },
            Err(AppError::UnclosedOpeningBracket(at)) => at < marks.len() && marks[at as int]
                is Open,
            Err(_) => false,
        },
{
    lemma_pairing_from_errors(marks, 0, Seq::empty());
}

/// A stretch whose brackets pair up on their own leaves the open brackets
/// around it as they are: scanning it within any sequence ends with the
/// stack it began with.
pub proof fn lemma_paired_stretch(
    part: Seq<BracketMark>,
    i: int,
    inner: Seq<(BracketShape, usize)>,
    whole: Seq<BracketMark>,
    offset: int,
    outer: Seq<(BracketShape, usize)>,
    held: Seq<(BracketShape, usize)>,
)
    requires
        0 <= i <= part.len(),
        0 <= offset,
        offset + part.len() <= whole.len(),
        whole.subrange(offset, offset + part.len()) == part,
        pairing_from(part, i, inner) is Ok,
        shapes(held) == shapes(inner),
    ensures
        pairing_from(whole, offset + i, outer + held) == pairing_from(
            whole,
            offset + part.len(),
            outer,
        ),
    decreases part.len() - i,
{
    assert(held.len() == shapes(held).len());
    assert(inner.len() == shapes(inner).len());
    if i < part.len() {
        assert(whole[offset + i] == part[i]);
        match part[i] {
            BracketMark::Open(shape) => {
                let inner_next = inner.push((shape, i as usize));
                let held_next = held.push((shape, (offset + i) as usize));
                assert(shapes(held_next) =~= shapes(held).push(shape));
                assert(shapes(inner_next) =~= shapes(inner).push(shape));
                assert((outer + held).push((shape, (offset + i) as usize)) =~= outer + held_next);
                lemma_paired_stretch(part, i + 1, inner_next, whole, offset, outer, held_next);
            },
            BracketMark::Close(shape) => {
                assert(inner.len() > 0);
                assert(shapes(inner)[inner.len() - 1] == inner.last().0);
                assert(shapes(held)[held.len() - 1] == held.last().0);
                assert((outer + held).last() == held.last());
                assert(shapes(held.drop_last()) =~= shapes(held).drop_last());
                assert(shapes(inner.drop_last()) =~= shapes(inner).drop_last());
                assert((outer + held).drop_last() =~= outer + held.drop_last());
                lemma_paired_stretch(
                    part,
                    i + 1,
                    inner.drop_last(),
                    whole,
                    offset,
                    outer,
                    held.drop_last(),
                );
            },
            BracketMark::Other => {
                lemma_paired_stretch(part, i + 1, inner, whole, offset, outer, held);
            },
        }
    } else {
        assert(inner.len() == 0);
        assert(outer + held =~= outer);
    }
}

/// A sequence without any bracket pairs up.
pub proof fn lemma_no_brackets_pair_up(marks: Seq<BracketMark>, i: int)
    requires
        forall|k: int| 0 <= k < marks.len() ==> (#[trigger] marks[k]) is Other,
    ensures
        pairing_from(marks, i, Seq::empty()) is Ok,
    decreases marks.len() - i,
{
    if 0 <= i < marks.len() {
        lemma_no_brackets_pair_up(marks, i + 1);
    }
}

/// Two sequences that pair up, one behind the other, pair up.
pub proof fn lemma_paired_then_paired(first: Seq<BracketMark>, second: Seq<BracketMark>)
    requires
        pairing(first) is Ok,
        pairing(second) is Ok,
    ensures
        pairing(first + second) is Ok,
{
    let whole = first + second;
    let none = Seq::<(BracketShape, usize)>::empty();
    assert(whole.subrange(0, first.len() as int) =~= first);
    assert(whole.subrange(first.len() as int, whole.len() as int) =~= second);
    assert(none + none =~= none);
    lemma_paired_stretch(first, 0, none, whole, 0, none, none);
    lemma_paired_stretch(second, 0, none, whole, first.len() as int, none, none);
}

/// A sequence that pairs up, put between an opening bracket and a closing
/// bracket of the same shape, pairs up.
pub proof fn lemma_paired_in_brackets(inside: Seq<BracketMark>, shape: BracketShape)
    requires
        pairing(inside) is Ok,
    ensures
        pairing(seq![BracketMark::Open(shape)] + inside + seq![BracketMark::Close(shape)]) is Ok,
{
    let whole = seq![BracketMark::Open(shape)] + inside + seq![BracketMark::Close(shape)];
    let none = Seq::<(BracketShape, usize)>::empty();
    let outer = none.push((shape, 0usize));
    let n = inside.len() as int;
    assert(whole.subrange(1, 1 + n) =~= inside);
    assert(outer + none =~= outer);
    lemma_paired_stretch(inside, 0, none, whole, 1, outer, none);
    assert(whole[0] == BracketMark::Open(shape));
    assert(whole[1 + n] == BracketMark::Close(shape));
    assert(pairing_from(whole, 0, none) == pairing_from(whole, 1, outer));
    assert(outer.drop_last() =~= none);
    assert(pairing_from(whole, 1 + n, outer) == pairing_from(whole, 2 + n, none));
}

} // verus!
