//! Terms and the term grouper: a negator, a coefficient, a variable and a
//! subscript are gathered from the flat token sequence into one term.

use vstd::prelude::*;
use vstd::slice::{slice_subrange, slice_to_vec};
use crate::brackets::{check_token_brackets, pairing, token_marks};
use crate::error::AppError;
use crate::tokens::alphabet::Token;

verus! {

/// Whether `token` is the negator of an operator family.
pub open spec fn is_negator(token: Token) -> bool {
    token matches Token::Operator(op) && op.is_negator_spec()
}

/// Whether `token` can be the heart of a term: a variable or a named
/// constant.
pub open spec fn is_symbol(token: Token) -> bool {
    token is Variable || token is Constant
}

/// Whether `token` is an operand: a variable, a named constant or a digit.
pub open spec fn is_operand(token: Token) -> bool {
    is_symbol(token) || token is Number
}

/// Tests a token for being a negator.
pub fn token_is_negator(token: &Token) -> (yes: bool)
    ensures
        yes == is_negator(*token),
{
    match token {
        Token::Operator(op) => op.is_negator(),
        _ => false,
    }
}

/// Tests a token for being a variable or a named constant.
pub fn token_is_symbol(token: &Token) -> (yes: bool)
    ensures
        yes == is_symbol(*token),
{
    match token {
        Token::Variable(_) => true,
        Token::Constant(_) => true,
        _ => false,
    }
}

/// Tests a token for being a digit.
pub fn token_is_number(token: &Token) -> (yes: bool)
    ensures
        yes == (*token is Number),
{
    match token {
        Token::Number(_) => true,
        _ => false,
    }
}

/// The index behind the run of digits that starts at `i`; `i` itself where
/// no digit stands there.
pub open spec fn number_run(tokens: Seq<Token>, i: int) -> int
    decreases tokens.len() - i,
{
    if 0 <= i < tokens.len() && tokens[i] is Number {
        number_run(tokens, i + 1)
    } else {
        i
    }
}

/// The index behind the coefficient that starts at `i`: a run of digits
/// and, where a dot and a digit follow it, the dot and the digits of the
/// fraction.
pub open spec fn coefficient_end(tokens: Seq<Token>, i: int) -> int {
    let whole = number_run(tokens, i);
    if whole > i && whole + 1 < tokens.len() && tokens[whole] is Dot && tokens[whole + 1] is Number {
        number_run(tokens, whole + 1)
    } else {
        whole
    }
}

/// The index behind what may stand before the symbol of a term that starts
/// at `i`: a negator, if one stands at `i`, and a coefficient.
pub open spec fn prefix_end(tokens: Seq<Token>, i: int) -> int {
    if 0 <= i < tokens.len() && is_negator(tokens[i]) {
        coefficient_end(tokens, i + 1)
    } else {
        coefficient_end(tokens, i)
    }
}

/// The shape of a term: a negator or none, a coefficient or none, exactly
/// one symbol, and then nothing more or an underscore with at least one
/// digit and nothing but digits behind it.
pub open spec fn is_term(tokens: Seq<Token>) -> bool {
    let at = prefix_end(tokens, 0);
    &&& 0 <= at < tokens.len()
    &&& is_symbol(tokens[at])
    &&& (at + 1 == tokens.len() || (tokens[at + 1] is Underscore && at + 2 < tokens.len()
        && number_run(tokens, at + 2) == tokens.len()))
}

/// A coefficient with a variable and a subscript, held as the tokens it was
/// gathered from. A term is never empty and always has the shape `is_term`.
#[derive(Debug, PartialEq)]
pub struct Term {
    tokens: Vec<Token>,
}

impl View for Term {
    type V = Seq<Token>;

    closed spec fn view(&self) -> Seq<Token> {
        self.tokens@
    }
}

/// One entry of a grouped sequence: a token that passed through, or a term.
#[derive(Debug, PartialEq)]
pub enum TokenOrTerm {
    Single(Token),
    Term(Term),
}

/// What an entry of a grouped sequence holds.
pub enum Entry {
    Single(Token),
    Term(Seq<Token>),
}

impl View for TokenOrTerm {
    type V = Entry;

    open spec fn view(&self) -> Entry {
        match self {
            TokenOrTerm::Single(token) => Entry::Single(*token),
            TokenOrTerm::Term(term) => Entry::Term(term@),
        }
    }
}

/// What the entries of a grouped sequence hold, in order.
pub open spec fn entries(grouped: Seq<TokenOrTerm>) -> Seq<Entry> {
    grouped.map_values(|entry: TokenOrTerm| entry@)
}

/// The entries that pass `tokens` through one by one.
pub open spec fn singles(tokens: Seq<Token>) -> Seq<Entry> {
    tokens.map_values(|token: Token| Entry::Single(token))
}

/// `head` put before the entries of `rest`, where `rest` has any.
pub open spec fn prepend(head: Seq<Entry>, rest: Result<Seq<Entry>, AppError>) -> Result<
    Seq<Entry>,
    AppError,
> {
    match rest {
        Ok(tail) => Ok(head + tail),
        Err(error) => Err(error),
    }
}

/// The grouping of `tokens` from index `i` on, in one pass from left to
/// right. Where the longest negator-and-coefficient prefix at `i` is
/// followed by a symbol, a term runs from `i` over the symbol and over its
/// subscript, and an underscore without a digit behind it is an error.
/// Otherwise no term starts at `i`: the prefix, or the one token at `i`
/// where the prefix is empty, passes through token by token.
pub open spec fn group_from(tokens: Seq<Token>, i: int) -> Result<Seq<Entry>, AppError>
    decreases tokens.len() - i,
{
    if i < 0 || i >= tokens.len() {
        Ok(Seq::empty())
    } else {
        proof {
            lemma_prefix_end_bounds(tokens, i);
        }
        let at = prefix_end(tokens, i);
        if at < tokens.len() && is_symbol(tokens[at]) {
            if at + 1 < tokens.len() && tokens[at + 1] is Underscore {
                proof {
                    lemma_number_run_bounds(tokens, at + 2);
                }
                let end = number_run(tokens, at + 2);
                if end == at + 2 {
                    Err(AppError::MissingSubscriptDigits((at + 1) as usize))
                } else {
                    prepend(seq![Entry::Term(tokens.subrange(i, end))], group_from(tokens, end))
                }
            } else {
                prepend(seq![Entry::Term(tokens.subrange(i, at + 1))], group_from(tokens, at + 1))
            }
        } else if at > i {
            prepend(singles(tokens.subrange(i, at)), group_from(tokens, at))
        } else {
            prepend(seq![Entry::Single(tokens[i])], group_from(tokens, i + 1))
        }
    }
}

/// Whether a proposition may end on `entry`: on a term, a closing bracket
/// or a digit, but not on a bare operator.
pub open spec fn may_end(entry: Entry) -> bool {
    match entry {
        Entry::Term(_) => true,
        Entry::Single(token) => token is CloseBracket || token is Number,
    }
}

/// The grouping of a whole token sequence: `group_from` at the start, and
/// an error where the grouping is empty or ends on an entry that may not
/// end a proposition.
pub open spec fn grouped(tokens: Seq<Token>) -> Result<Seq<Entry>, AppError> {
    match group_from(tokens, 0) {
        Ok(all) => if all.len() > 0 && may_end(all.last()) {
            Ok(all)
        } else {
            Err(AppError::InvalidSequenceEnd)
        },
        Err(error) => Err(error),
    }
}

/// What the outcome of a grouping holds.
pub open spec fn grouping_view(outcome: Result<Vec<TokenOrTerm>, AppError>) -> Result<
    Seq<Entry>,
    AppError,
> {
    match outcome {
        Ok(all) => Ok(entries(all@)),
        Err(error) => Err(error),
    }
}

/// A run of digits ends within the sequence, holds digits only, and stops
/// before the end only at a token that is no digit.
pub proof fn lemma_number_run_bounds(tokens: Seq<Token>, i: int)
    requires
        0 <= i,
    ensures
        i <= number_run(tokens, i),
        i <= tokens.len() ==> number_run(tokens, i) <= tokens.len(),
        forall|k: int| i <= k < number_run(tokens, i) ==> (#[trigger] tokens[k]) is Number,
        number_run(tokens, i) < tokens.len() ==> !(tokens[number_run(tokens, i)] is Number),
    decreases tokens.len() - i,
{
    if i < tokens.len() && tokens[i] is Number {
        lemma_number_run_bounds(tokens, i + 1);
    }
}

/// A stretch of digits that stops at a token that is no digit, or at the
/// end, is the run of digits from its start.
pub proof fn lemma_number_run_is(tokens: Seq<Token>, i: int, end: int)
    requires
        0 <= i <= end <= tokens.len(),
        forall|k: int| i <= k < end ==> (#[trigger] tokens[k]) is Number,
        end < tokens.len() ==> !(tokens[end] is Number),
    ensures
        number_run(tokens, i) == end,
    decreases end - i,
{
    if i < end {
        lemma_number_run_is(tokens, i + 1, end);
    }
}

/// A coefficient ends within the sequence.
pub proof fn lemma_coefficient_end_bounds(tokens: Seq<Token>, i: int)
    requires
        0 <= i <= tokens.len(),
    ensures
        i <= coefficient_end(tokens, i) <= tokens.len(),
{
    lemma_number_run_bounds(tokens, i);
    let whole = number_run(tokens, i);
    lemma_number_run_bounds(tokens, whole + 1);
}

/// The prefix of a term ends within the sequence.
pub proof fn lemma_prefix_end_bounds(tokens: Seq<Token>, i: int)
    requires
        0 <= i < tokens.len(),
    ensures
        i <= prefix_end(tokens, i) <= tokens.len(),
{
    lemma_coefficient_end_bounds(tokens, i);
    lemma_coefficient_end_bounds(tokens, i + 1);
}

/// Within a stretch of the sequence, a run of digits is the run of the
/// whole sequence cut off at the end of the stretch.
pub proof fn lemma_number_run_within(tokens: Seq<Token>, from: int, to: int, j: int)
    requires
        0 <= from <= j <= to <= tokens.len(),
    ensures
        number_run(tokens.subrange(from, to), j - from) == (if number_run(tokens, j) < to {
            number_run(tokens, j)
        } else {
            to
        }) - from,
{
    let part = tokens.subrange(from, to);
    let run = number_run(tokens, j);
    let cut = if run < to {
        run
    } else {
        to
    };
    lemma_number_run_bounds(tokens, j);
    assert forall|k: int| j - from <= k < cut - from implies (#[trigger] part[k]) is Number by {
        assert(part[k] == tokens[k + from]);
    }
    if cut - from < part.len() {
        assert(part[cut - from] == tokens[cut]);
    }
    lemma_number_run_is(part, j - from, cut - from);
}

/// The stretch of a sequence that `group_from` makes a term of has the
/// shape of a term.
pub proof fn lemma_term_shape(tokens: Seq<Token>, i: int, end: int)
    requires
        0 <= i < tokens.len(),
        prefix_end(tokens, i) < tokens.len(),
        is_symbol(tokens[prefix_end(tokens, i)]),
        ({
            let at = prefix_end(tokens, i);
            ||| (end == at + 1 && !(at + 1 < tokens.len() && tokens[at + 1] is Underscore))
            ||| (at + 1 < tokens.len() && tokens[at + 1] is Underscore && end == number_run(
                tokens,
                at + 2,
            ) && end > at + 2)
        }),
    ensures
        i < end <= tokens.len(),
        is_term(tokens.subrange(i, end)),
{
    let at = prefix_end(tokens, i);
    lemma_prefix_end_bounds(tokens, i);
    lemma_number_run_bounds(tokens, at + 2);
    let part = tokens.subrange(i, end);
    let start = if is_negator(tokens[i]) {
        i + 1
    } else {
        i
    };
    assert(part[0] == tokens[i]);
    lemma_coefficient_end_bounds(tokens, start);
    let whole = number_run(tokens, start);
    lemma_number_run_bounds(tokens, start);
    lemma_number_run_bounds(tokens, whole + 1);
    assert(whole <= at);
    lemma_number_run_within(tokens, i, end, start);
    assert(number_run(part, start - i) == whole - i);
    if whole > start && whole + 1 < tokens.len() && tokens[whole] is Dot && tokens[whole + 1] is Number {
        assert(number_run(tokens, whole + 1) == at);
        assert(whole + 1 < at);
        assert(part[whole - i] == tokens[whole]);
        assert(part[whole + 1 - i] == tokens[whole + 1]);
        lemma_number_run_within(tokens, i, end, whole + 1);
    } else {
        assert(whole == at);
        if whole + 1 - i < part.len() {
            assert(part[whole - i] == tokens[whole]);
            assert(part[whole + 1 - i] == tokens[whole + 1]);
        }
    }
    assert(prefix_end(part, 0) == at - i);
    assert(part[at - i] == tokens[at]);
    if end > at + 1 {
        assert(part[at + 1 - i] == tokens[at + 1]);
        lemma_number_run_within(tokens, i, end, at + 2);
    }
}

/// The index behind the run of digits that starts at `i`.
pub fn scan_number_run(tokens: &[Token], i: usize) -> (end: usize)
    requires
        i <= tokens@.len(),
    ensures
        end == number_run(tokens@, i as int),
        i <= end <= tokens@.len(),
{
    let mut end = i;
    while end < tokens.len() && token_is_number(&tokens[end])
        invariant
            i <= end <= tokens@.len(),
            number_run(tokens@, i as int) == number_run(tokens@, end as int),
        decreases tokens@.len() - end,
    {
        end = end + 1;
    }
    end
}

/// The index behind the coefficient that starts at `i`.
pub fn scan_coefficient(tokens: &[Token], i: usize) -> (end: usize)
    requires
        i <= tokens@.len(),
    ensures
        end == coefficient_end(tokens@, i as int),
        i <= end <= tokens@.len(),
{
    let whole = scan_number_run(tokens, i);
    if whole > i && whole < tokens.len() - 1 && matches!(tokens[whole], Token::Dot)
        && token_is_number(&tokens[whole + 1]) {
        scan_number_run(tokens, whole + 1)
    } else {
        whole
    }
}

/// The index behind the negator and the coefficient that start at `i`.
pub fn scan_prefix(tokens: &[Token], i: usize) -> (end: usize)
    requires
        i < tokens@.len(),
    ensures
        end == prefix_end(tokens@, i as int),
        i <= end <= tokens@.len(),
{
    if token_is_negator(&tokens[i]) {
        scan_coefficient(tokens, i + 1)
    } else {
        scan_coefficient(tokens, i)
    }
}

/// Why `tokens` are not a term, or nothing where they are one: a start that
/// leads to no symbol, an underscore without a digit behind it, or tokens
/// left over behind the term.
pub open spec fn term_error(tokens: Seq<Token>) -> Option<AppError> {
    let at = prefix_end(tokens, 0);
    if !(0 <= at < tokens.len() && is_symbol(tokens[at])) {
        Some(AppError::InvalidSequenceStart)
    } else if at + 1 == tokens.len() {
        None
    } else if tokens[at + 1] is Underscore {
        if number_run(tokens, at + 2) == at + 2 {
            Some(AppError::MissingSubscriptDigits((at + 1) as usize))
        } else if number_run(tokens, at + 2) == tokens.len() {
            None
        } else {
            Some(AppError::InvalidSequenceEnd)
        }
    } else {
        Some(AppError::InvalidSequenceEnd)
    }
}

/// Tokens are a term exactly where `term_error` finds nothing wrong.
pub proof fn lemma_term_error(tokens: Seq<Token>)
    ensures
        term_error(tokens) is None <==> is_term(tokens),
{
    if tokens.len() > 0 {
        lemma_prefix_end_bounds(tokens, 0);
        let at = prefix_end(tokens, 0);
        if at + 2 <= tokens.len() {
            lemma_number_run_bounds(tokens, at + 2);
        }
    }
}

impl Term {
    #[verifier::type_invariant]
    spec fn well_formed(self) -> bool {
        is_term(self.tokens@)
    }

    /// Makes a term of `tokens`, or says why they are none.
    pub fn from(tokens: Vec<Token>) -> (outcome: Result<Term, AppError>)
        ensures
            match outcome {
                Ok(term) => term@ == tokens@ && is_term(tokens@),
                Err(error) => term_error(tokens@) == Some(error),
            },
    {
        proof {
            lemma_term_error(tokens@);
        }
        if tokens.len() == 0 {
            return Err(AppError::InvalidSequenceStart);
        }
        let at = scan_prefix(tokens.as_slice(), 0);
        if at >= tokens.len() || !token_is_symbol(&tokens[at]) {
            return Err(AppError::InvalidSequenceStart);
        }
        if at + 1 == tokens.len() {
            return Ok(Term { tokens });
        }
        if !matches!(tokens[at + 1], Token::Underscore) {
            return Err(AppError::InvalidSequenceEnd);
        }
        let end = scan_number_run(tokens.as_slice(), at + 2);
        if end == at + 2 {
            Err(AppError::MissingSubscriptDigits(at + 1))
        } else if end == tokens.len() {
            Ok(Term { tokens })
        } else {
            Err(AppError::InvalidSequenceEnd)
        }
    }

    /// The tokens of this term, in order.
    pub fn tokens(&self) -> (tokens: &Vec<Token>)
        ensures
            tokens@ == self@,
            is_term(self@),
    {
        proof {
            use_type_invariant(self);
        }
        &self.tokens
    }

    /// The number of tokens of this term, which is never zero.
    pub fn len(&self) -> (n: usize)
        ensures
            n == self@.len(),
            n >= 1,
    {
        proof {
            use_type_invariant(self);
        }
        self.tokens.len()
    }

    /// Whether the token sequence holds a variable, a named constant or a
    /// digit; without any there is nothing to compute with.
    pub fn check_var_and_num(tokens: &[Token]) -> (outcome: Result<(), AppError>)
        ensures
            outcome == operand_check(tokens@),
    {
        let mut i: usize = 0;
        while i < tokens.len()
            invariant
                0 <= i <= tokens@.len(),
                forall|k: int| 0 <= k < i ==> !is_operand(#[trigger] tokens@[k]),
            decreases tokens@.len() - i,
        {
            if token_is_symbol(&tokens[i]) || token_is_number(&tokens[i]) {
                return Ok(());
            }
            i = i + 1;
        }
        Err(AppError::EmptyOperandSet)
    }

    /// Checks that the brackets among `tokens` pair up.
    pub fn check_pair_brackets(tokens: &[Token]) -> (outcome: Result<(), AppError>)
        ensures
            outcome == pairing(token_marks(tokens@)),
    {
        check_token_brackets(tokens)
    }
}

/// The outcome of the operand check: an error exactly where no token is an
/// operand.
pub open spec fn operand_check(tokens: Seq<Token>) -> Result<(), AppError> {
    if exists|k: int| 0 <= k < tokens.len() && is_operand(#[trigger] tokens[k]) {
        Ok(())
    } else {
        Err(AppError::EmptyOperandSet)
    }
}

/// Putting entries before a grouping in two steps is putting them before
/// it in one.
pub proof fn lemma_prepend_twice(
    first: Seq<Entry>,
    second: Seq<Entry>,
    rest: Result<Seq<Entry>, AppError>,
)
    ensures
        prepend(first, prepend(second, rest)) == prepend(first + second, rest),
{
    match rest {
        Ok(tail) => {
            assert(first + (second + tail) =~= (first + second) + tail);
        },
        Err(_) => {},
    }
}

/// Groups a flat token sequence into terms in one pass from left to right.
/// A negator, a coefficient, a variable or constant and a subscript become
/// one term; every other token passes through unchanged. An underscore
/// without a digit behind it is an error, and so is a sequence that is
/// empty or trails off on anything but a term, a closing bracket or a
/// digit.
pub fn group_tokens_into_terms(src_tokens: &[Token]) -> (outcome: Result<
    Vec<TokenOrTerm>,
    AppError,
>)
    ensures
        grouping_view(outcome) == grouped(src_tokens@),
{
    let mut out: Vec<TokenOrTerm> = Vec::new();
    let len = src_tokens.len();
    let mut i: usize = 0;
    assert(entries(out@) + Seq::<Entry>::empty() =~= Seq::<Entry>::empty());
    assert(entries(out@) =~= Seq::<Entry>::empty());
    proof {
        match group_from(src_tokens@, 0) {
            Ok(all) => {
                assert(Seq::<Entry>::empty() + all =~= all);
            },
            Err(_) => {},
        }
    }
    while i < len
        invariant
            len == src_tokens@.len(),
            0 <= i <= len,
            group_from(src_tokens@, 0) == prepend(entries(out@), group_from(src_tokens@, i as int)),
        decreases len - i,
    {
        let ghost before = entries(out@);
        let at = scan_prefix(src_tokens, i);
        if at < len && token_is_symbol(&src_tokens[at]) {
            let mut end = at + 1;
            if at + 1 < len && matches!(src_tokens[at + 1], Token::Underscore) {
                end = scan_number_run(src_tokens, at + 2);
                if end == at + 2 {
                    return Err(AppError::MissingSubscriptDigits(at + 1));
                }
            }
            proof {
                lemma_term_shape(src_tokens@, i as int, end as int);
            }
            let term = Term { tokens: slice_to_vec(slice_subrange(src_tokens, i, end)) };
            out.push(TokenOrTerm::Term(term));
            proof {
                let head = seq![Entry::Term(src_tokens@.subrange(i as int, end as int))];
                assert(entries(out@) =~= before + head);
                lemma_prepend_twice(before, head, group_from(src_tokens@, end as int));
            }
            i = end;
        } else if at > i {
            let mut k = i;
            while k < at
                invariant
                    len == src_tokens@.len(),
                    i <= k <= at <= len,
                    entries(out@) == before + singles(src_tokens@.subrange(i as int, k as int)),
                decreases at - k,
            {
                let ghost held = out@;
                out.push(TokenOrTerm::Single(src_tokens[k]));
                proof {
                    let passed = singles(src_tokens@.subrange(i as int, k as int));
                    let one = Entry::Single(src_tokens@[k as int]);
                    assert(entries(out@) =~= entries(held).push(one));
                    assert(singles(src_tokens@.subrange(i as int, k as int + 1)) =~= passed.push(
                        one,
                    ));
                    assert((before + passed).push(one) =~= before + passed.push(one));
                }
                k = k + 1;
            }
            proof {
                lemma_prepend_twice(
                    before,
                    singles(src_tokens@.subrange(i as int, at as int)),
                    group_from(src_tokens@, at as int),
                );
            }
            i = at;
        } else {
            out.push(TokenOrTerm::Single(src_tokens[i]));
            proof {
                let head = seq![Entry::Single(src_tokens@[i as int])];
                assert(entries(out@) =~= before + head);
                lemma_prepend_twice(before, head, group_from(src_tokens@, i as int + 1));
            }
            i = i + 1;
        }
    }
    assert(entries(out@) + Seq::<Entry>::empty() =~= entries(out@));
    let n = out.len();
    if n == 0 {
        return Err(AppError::InvalidSequenceEnd);
    }
    let ends_well = match &out[n - 1] {
        TokenOrTerm::Term(_) => true,
        TokenOrTerm::Single(Token::CloseBracket(_)) => true,
        TokenOrTerm::Single(Token::Number(_)) => true,
        TokenOrTerm::Single(_) => false,
    };
    assert(entries(out@).last() == out@[n - 1]@);
    if ends_well {
        Ok(out)
    } else {
        Err(AppError::InvalidSequenceEnd)
    }
}

/// The tokens that an entry holds.
pub open spec fn entry_tokens(entry: Entry) -> Seq<Token> {
    match entry {
        Entry::Single(token) => seq![token],
        Entry::Term(tokens) => tokens,
    }
}

/// The tokens of a grouped sequence, flat again.
pub open spec fn flatten(all: Seq<Entry>) -> Seq<Token>
    decreases all.len(),
{
    if all.len() == 0 {
        Seq::empty()
    } else {
        entry_tokens(all[0]) + flatten(all.drop_first())
    }
}

/// A single entry flattens to its tokens.
pub proof fn lemma_flatten_one(entry: Entry)
    ensures
        flatten(seq![entry]) == entry_tokens(entry),
{
    let one = seq![entry];
    assert(one.drop_first() =~= Seq::<Entry>::empty());
    assert(flatten(one.drop_first()) =~= Seq::<Token>::empty());
    assert(entry_tokens(entry) + Seq::<Token>::empty() =~= entry_tokens(entry));
}

/// Flattening two sequences put together is putting together what each
/// flattens to.
pub proof fn lemma_flatten_add(first: Seq<Entry>, second: Seq<Entry>)
    ensures
        flatten(first + second) == flatten(first) + flatten(second),
    decreases first.len(),
{
    if first.len() == 0 {
        assert(first + second =~= second);
        assert(flatten(first) + flatten(second) =~= flatten(second));
    } else {
        assert((first + second).drop_first() =~= first.drop_first() + second);
        lemma_flatten_add(first.drop_first(), second);
        assert(entry_tokens(first[0]) + (flatten(first.drop_first()) + flatten(second))
            =~= (entry_tokens(first[0]) + flatten(first.drop_first())) + flatten(second));
    }
}

/// Tokens that passed through one by one flatten to themselves.
pub proof fn lemma_flatten_singles(tokens: Seq<Token>)
    ensures
        flatten(singles(tokens)) == tokens,
    decreases tokens.len(),
{
    if tokens.len() > 0 {
        assert(singles(tokens).drop_first() =~= singles(tokens.drop_first()));
        lemma_flatten_singles(tokens.drop_first());
        assert(seq![tokens[0]] + tokens.drop_first() =~= tokens);
    } else {
        assert(flatten(singles(tokens)) =~= tokens);
    }
}

/// Grouping neither loses a token nor moves one: the entries of a grouping
/// that succeeds flatten to the tokens it was made of, and every term among
/// them has the shape of a term.
pub proof fn lemma_group_from_sound(tokens: Seq<Token>, i: int)
    requires
        0 <= i <= tokens.len(),
    ensures
        group_from(tokens, i) matches Ok(all) ==> {
            &&& flatten(all) == tokens.subrange(i, tokens.len() as int)
            &&& forall|k: int|
                0 <= k < all.len() ==> ((#[trigger] all[k]) matches Entry::Term(part) ==> is_term(
                    part,
                ))
        },
    decreases tokens.len() - i,
{
    let len = tokens.len() as int;
    if i >= len {
        assert(tokens.subrange(i, len) =~= Seq::<Token>::empty());
    } else {
        lemma_prefix_end_bounds(tokens, i);
        let at = prefix_end(tokens, i);
        let (head, next) = if at < len && is_symbol(tokens[at]) {
            if at + 1 < len && tokens[at + 1] is Underscore {
                lemma_number_run_bounds(tokens, at + 2);
                let end = number_run(tokens, at + 2);
                (seq![Entry::Term(tokens.subrange(i, end))], end)
            } else {
                (seq![Entry::Term(tokens.subrange(i, at + 1))], at + 1)
            }
        } else if at > i {
            (singles(tokens.subrange(i, at)), at)
        } else {
            (seq![Entry::Single(tokens[i])], i + 1)
        };
        if group_from(tokens, i) is Ok {
            assert(i < next <= len);
            assert(group_from(tokens, i) == prepend(head, group_from(tokens, next)));
            lemma_group_from_sound(tokens, next);
            let tail = group_from(tokens, next)->Ok_0;
            let all = head + tail;
            lemma_flatten_add(head, tail);
            if at < len && is_symbol(tokens[at]) {
                lemma_term_shape(tokens, i, next);
                lemma_flatten_one(head[0]);
                assert(head =~= seq![head[0]]);
            } else if at > i {
                lemma_flatten_singles(tokens.subrange(i, at));
            } else {
                lemma_flatten_one(head[0]);
                assert(head =~= seq![head[0]]);
                assert(seq![tokens[i]] =~= tokens.subrange(i, next));
            }
            assert(tokens.subrange(i, next) + tokens.subrange(next, len) =~= tokens.subrange(
                i,
                len,
            ));
            assert forall|k: int| 0 <= k < all.len() implies ((#[trigger] all[k]) matches Entry::Term(
                part,
            ) ==> is_term(part)) by {
                if k < head.len() {
                    assert(all[k] == head[k]);
                } else {
                    assert(all[k] == tail[k - head.len()]);
                }
            }
        }
    }
}

/// A grouping that succeeds holds every token of the sequence once and in
/// order, its terms are well-formed, and it ends on a term, a closing
/// bracket or a digit.
pub proof fn lemma_grouped_sound(tokens: Seq<Token>)
    ensures
        grouped(tokens) matches Ok(all) ==> {
            &&& flatten(all) == tokens
            &&& all.len() > 0
            &&& may_end(all.last())
            &&& forall|k: int|
                0 <= k < all.len() ==> ((#[trigger] all[k]) matches Entry::Term(part) ==> is_term(
                    part,
                ))
        },
{
    lemma_group_from_sound(tokens, 0);
    assert(tokens.subrange(0, tokens.len() as int) =~= tokens);
}

} // verus!
