//! The lexer: a longest-match scanner that drives a recognizer over the
//! normalized input and yields one token per step.

use vstd::prelude::*;
use vstd::slice::slice_subrange;
use crate::tokens::alphabet::Token;

verus! {

/// Whether `c` is whitespace: one of the 25 characters with the Unicode
/// property White_Space. These are the tab, the line feed, the vertical
/// tab, the form feed and the carriage return (U+0009 to U+000D), the
/// space, the next-line character (U+0085), the no-break space (U+00A0),
/// the Ogham space mark (U+1680), the spaces of fixed width (U+2000 to
/// U+200A), the line and the paragraph separator (U+2028, U+2029), the
/// narrow no-break space (U+202F), the medium mathematical space (U+205F)
/// and the ideographic space (U+3000).
pub open spec fn white_space(c: char) -> bool {
    ('\u{9}' <= c && c <= '\u{d}') || c == ' ' || c == '\u{85}' || c == '\u{a0}' || c
        == '\u{1680}' || ('\u{2000}' <= c && c <= '\u{200a}') || c == '\u{2028}' || c
        == '\u{2029}' || c == '\u{202f}' || c == '\u{205f}' || c == '\u{3000}'
}

/// Whether `c` is an ASCII control character: U+0000 to U+001F, or U+007F.
pub open spec fn ascii_control(c: char) -> bool {
    c <= '\u{1f}' || c == '\u{7f}'
}

/// Whether `c` carries lexical meaning, that is, survives normalization.
pub open spec fn is_significant(c: char) -> bool {
    !white_space(c) && !ascii_control(c)
}

/// The input as the lexer scans it: `src` without its whitespace and
/// without its ASCII control characters.
pub open spec fn normalized(src: Seq<char>) -> Seq<char> {
    src.filter(|c: char| is_significant(c))
}

/// Tests a character for being whitespace.
pub fn char_is_whitespace(c: char) -> (yes: bool)
    ensures
        yes == white_space(c),
{
    ('\u{9}' <= c && c <= '\u{d}') || c == ' ' || c == '\u{85}' || c == '\u{a0}' || c
        == '\u{1680}' || ('\u{2000}' <= c && c <= '\u{200a}') || c == '\u{2028}' || c
        == '\u{2029}' || c == '\u{202f}' || c == '\u{205f}' || c == '\u{3000}'
}

/// Tests a character for being an ASCII control character.
pub fn char_is_ascii_control(c: char) -> (yes: bool)
    ensures
        yes == ascii_control(c),
{
    c <= '\u{1f}' || c == '\u{7f}'
}

/// Tests a character for carrying lexical meaning.
pub fn char_is_significant(c: char) -> (yes: bool)
    ensures
        yes == is_significant(c),
{
    !char_is_whitespace(c) && !char_is_ascii_control(c)
}

/// Strips whitespace and ASCII control characters, which carry no lexical
/// meaning, and keeps every other character in its order.
pub fn normalize(src: &str) -> (chars: Vec<char>)
    ensures
        chars@ == normalized(src@),
{
    let mut chars: Vec<char> = Vec::new();
    proof {
        reveal(Seq::filter);
    }
    for c in it: src.chars()
        invariant
            it.seq() == src@,
            chars@ == normalized(it.seq().take(it.index())),
    {
        proof {
            reveal(Seq::filter);
            let before = it.seq().take(it.index());
            let after = it.seq().take(it.index() + 1);
            assert(after.drop_last() == before);
            assert(after.last() == c);
        }
        if char_is_significant(c) {
            chars.push(c);
        }
    }
    assert(src@.take(src@.len() as int) == src@);
    chars
}

/// Normalization leaves significant characters only, and a normalized text
/// is its own normalization.
pub proof fn lemma_normalized(src: Seq<char>)
    ensures
        forall|k: int| 0 <= k < normalized(src).len() ==> is_significant(#[trigger] normalized(src)[k]),
        normalized(normalized(src)) == normalized(src),
        normalized(src).len() <= src.len(),
    decreases src.len(),
{
    reveal(Seq::filter);
    let keep = |c: char| is_significant(c);
    if src.len() > 0 {
        lemma_normalized(src.drop_last());
        let rest = normalized(src.drop_last());
        if is_significant(src.last()) {
            let all = rest.push(src.last());
            assert(all.drop_last() =~= rest);
            assert(normalized(all) == normalized(rest).push(src.last()));
        }
    }
}

/// A recognizer of whole candidate strings. It either gives the typed token
/// that the candidate is, or fails; it never matches a part of a candidate.
pub trait TokenRecognizer {
    /// The token that the whole string `input` is, if it is one.
    spec fn recognized(&self, input: Seq<char>) -> Option<Token>;

    /// The length of the longest string that can be recognized.
    spec fn reach(&self) -> nat;

    /// Only strings of one character up to `reach()` characters are
    /// recognized.
    proof fn lemma_reach(&self, input: Seq<char>)
        ensures
            self.recognized(input) is Some ==> 1 <= input.len() <= self.reach(),
    ;

    /// The length of the longest string that can be recognized.
    fn max_len(&self) -> (n: usize)
        ensures
            n == self.reach(),
    ;

    /// Recognizes the whole candidate string as a token, or fails.
    fn recognize_token(&self, input: &[char]) -> (token: Option<Token>)
        ensures
            token == self.recognized(input@),
    ;
}

/// Whether `c` ends a candidate at once: no token of several characters
/// begins with a sign or runs through one.
pub open spec fn is_terminator(c: char) -> bool {
    c == '+' || c == '-'
}

/// Tests a character for being a terminator.
pub fn char_is_terminator(c: char) -> (yes: bool)
    ensures
        yes == is_terminator(c),
{
    c == '+' || c == '-'
}

/// How many characters a candidate that starts at `pos` may span: at most
/// `reach`, no more than the input holds, and none behind the first
/// terminator.
pub open spec fn window(input: Seq<char>, pos: int, reach: int) -> int
    decreases reach,
{
    if pos < 0 || pos >= input.len() || reach <= 0 {
        0
    } else if is_terminator(input[pos]) {
        1
    } else {
        1 + window(input, pos + 1, reach - 1)
    }
}

/// The length of the longest candidate at `pos` of at most `limit`
/// characters that `recognizer` accepts, or 0 where it accepts none.
pub open spec fn longest_match<R: TokenRecognizer>(
    recognizer: &R,
    input: Seq<char>,
    pos: int,
    limit: int,
) -> int
    decreases limit,
{
    if limit <= 0 {
        0
    } else if recognizer.recognized(input.subrange(pos, pos + limit)) is Some {
        limit
    } else {
        longest_match(recognizer, input, pos, limit - 1)
    }
}

/// The number of characters that the token at `pos` takes up: those of the
/// longest accepted candidate, or one where none is accepted.
pub open spec fn next_len<R: TokenRecognizer>(recognizer: &R, input: Seq<char>, pos: int) -> int {
    let hit = longest_match(recognizer, input, pos, window(input, pos, recognizer.reach() as int));
    if hit <= 0 {
        1
    } else {
        hit
    }
}

/// The token at `pos`: the longest candidate that `recognizer` accepts, or
/// the single character at `pos` as invalid where it accepts none.
pub open spec fn next_token<R: TokenRecognizer>(recognizer: &R, input: Seq<char>, pos: int) -> Token {
    let hit = longest_match(recognizer, input, pos, window(input, pos, recognizer.reach() as int));
    if hit <= 0 {
        Token::Invalid(input[pos])
    } else {
        recognizer.recognized(input.subrange(pos, pos + hit))->0
    }
}

/// The tokens of `input` from `pos` to its end.
pub open spec fn tokens_from<R: TokenRecognizer>(recognizer: &R, input: Seq<char>, pos: int) -> Seq<
    Token,
>
    decreases input.len() - pos,
{
    if pos < 0 || pos >= input.len() {
        Seq::empty()
    } else {
        proof {
            let limit = window(input, pos, recognizer.reach() as int);
            lemma_window_bounds(input, pos, recognizer.reach() as int);
            lemma_longest_match(recognizer, input, pos, limit);
        }
        seq![next_token(recognizer, input, pos)] + tokens_from(
            recognizer,
            input,
            pos + next_len(recognizer, input, pos),
        )
    }
}

/// The window at `pos` lies within the input and within `reach`, and is
/// empty only where no character is left or `reach` is zero.
pub proof fn lemma_window_bounds(input: Seq<char>, pos: int, reach: int)
    requires
        0 <= pos <= input.len(),
    ensures
        0 <= window(input, pos, reach) <= input.len() - pos,
        reach >= 0 ==> window(input, pos, reach) <= reach,
        pos < input.len() && reach >= 1 ==> window(input, pos, reach) >= 1,
    decreases reach,
{
    if pos < input.len() && reach > 0 && !is_terminator(input[pos]) {
        lemma_window_bounds(input, pos + 1, reach - 1);
    }
}

/// The longest match never exceeds its limit, is accepted where it is not
/// zero, and no longer candidate within the limit is accepted.
pub proof fn lemma_longest_match<R: TokenRecognizer>(
    recognizer: &R,
    input: Seq<char>,
    pos: int,
    limit: int,
)
    ensures
        0 <= longest_match(recognizer, input, pos, limit),
        limit >= 0 ==> longest_match(recognizer, input, pos, limit) <= limit,
        longest_match(recognizer, input, pos, limit) > 0 ==> recognizer.recognized(
            input.subrange(pos, pos + longest_match(recognizer, input, pos, limit)),
        ) is Some,
        forall|k: int|
            longest_match(recognizer, input, pos, limit) < k <= limit ==> recognizer.recognized(
                #[trigger] input.subrange(pos, pos + k),
            ) is None,
    decreases limit,
{
    if limit > 0 && recognizer.recognized(input.subrange(pos, pos + limit)) is None {
        lemma_longest_match(recognizer, input, pos, limit - 1);
    }
}

/// Maximal munch: the token at `pos` takes up at least one character and
/// stays within the input, and where the recognizer accepts a candidate at
/// `pos`, the token is the longest accepted candidate of the window.
pub proof fn lemma_maximal_munch<R: TokenRecognizer>(recognizer: &R, input: Seq<char>, pos: int)
    requires
        0 <= pos < input.len(),
    ensures
        1 <= next_len(recognizer, input, pos) <= input.len() - pos,
        forall|k: int|
            next_len(recognizer, input, pos) < k <= window(input, pos, recognizer.reach() as int)
                ==> recognizer.recognized(#[trigger] input.subrange(pos, pos + k)) is None,
        recognizer.recognized(input.subrange(pos, pos + next_len(recognizer, input, pos))) is Some
            ==> recognizer.recognized(
            input.subrange(pos, pos + next_len(recognizer, input, pos)),
        ) == Some(next_token(recognizer, input, pos)),
        recognizer.recognized(input.subrange(pos, pos + next_len(recognizer, input, pos))) is None
            ==> next_token(recognizer, input, pos) == Token::Invalid(input[pos]) && next_len(
            recognizer,
            input,
            pos,
        ) == 1,
{
    let reach = recognizer.reach() as int;
    let limit = window(input, pos, reach);
    lemma_window_bounds(input, pos, reach);
    lemma_longest_match(recognizer, input, pos, limit);
    if longest_match(recognizer, input, pos, limit) <= 0 {
        let single = input.subrange(pos, pos + 1);
        recognizer.lemma_reach(single);
        if reach >= 1 {
            assert(0 < 1 <= limit);
            assert(recognizer.recognized(single) is None);
        }
    }
}

/// A scan yields at most one token for each character of the input.
pub proof fn lemma_tokens_bounded<R: TokenRecognizer>(recognizer: &R, input: Seq<char>, pos: int)
    requires
        0 <= pos <= input.len(),
    ensures
        tokens_from(recognizer, input, pos).len() <= input.len() - pos,
        pos < input.len() ==> tokens_from(recognizer, input, pos).len() >= 1,
    decreases input.len() - pos,
{
    if pos < input.len() {
        lemma_maximal_munch(recognizer, input, pos);
        lemma_tokens_bounded(recognizer, input, pos + next_len(recognizer, input, pos));
    }
}

/// Scans one token: extends the candidate at `pos` one character at a time
/// for as long as the window allows, remembers the longest candidate that
/// `recognizer` accepted, and returns that token with its length, or the
/// single character at `pos` as invalid.
pub fn scan_token<R: TokenRecognizer>(recognizer: &R, input: &[char], pos: usize) -> (step: (
    Token,
    usize,
))
    requires
        pos < input@.len(),
    ensures
        step.0 == next_token(recognizer, input@, pos as int),
        step.1 == next_len(recognizer, input@, pos as int),
        1 <= step.1 <= input@.len() - pos,
{
    let reach = recognizer.max_len();
    let len = input.len();
    let mut best: Option<Token> = None;
    let mut best_len: usize = 0;
    let mut k: usize = 0;
    let mut stopped = false;
    proof {
        lemma_window_bounds(input@, pos as int, reach as int);
    }
    while !stopped && k < reach && k < len - pos
        invariant
            len == input@.len(),
            pos < len,
            reach == recognizer.reach(),
            0 <= k <= reach,
            k <= len - pos,
            window(input@, pos as int, reach as int) == k + (if stopped {
                0
            } else {
                window(input@, pos + k, reach - k)
            }),
            best_len == longest_match(recognizer, input@, pos as int, k as int),
            best_len <= k,
            best_len > 0 ==> best == recognizer.recognized(
                input@.subrange(pos as int, pos + best_len),
            ) && best is Some,
        decreases reach - k + (if stopped { 0int } else { 1int }),
    {
        stopped = char_is_terminator(input[pos + k]);
        k = k + 1;
        let candidate = slice_subrange(input, pos, pos + k);
        match recognizer.recognize_token(candidate) {
            Some(token) => {
                best = Some(token);
                best_len = k;
            },
            None => {},
        }
    }
    if best_len == 0 {
        (Token::Invalid(input[pos]), 1)
    } else {
        match best {
            Some(token) => (token, best_len),
            None => (Token::Invalid(input[pos]), 1),
        }
    }
}

/// A lexer over one normalized input. It yields the tokens of the input one
/// by one, forward only; once it has reached the end it yields nothing more
/// until it is reset.
pub struct Lexer<R: TokenRecognizer> {
    src_code: Vec<char>,
    cursor: usize,
    recognizer: R,
}

impl<R: TokenRecognizer> Lexer<R> {
    #[verifier::type_invariant]
    spec fn within_input(self) -> bool {
        self.cursor <= self.src_code@.len()
    }

    /// The normalized input that this lexer scans.
    pub closed spec fn input(&self) -> Seq<char> {
        self.src_code@
    }

    /// The index of the first character that has not been scanned yet.
    pub closed spec fn position(&self) -> int {
        self.cursor as int
    }

    /// The recognizer that decides what a candidate is.
    pub closed spec fn recognizer(&self) -> &R {
        &self.recognizer
    }

    /// A lexer at the start of `src_code`, from which whitespace and ASCII
    /// control characters are stripped first.
    pub fn new(src_code: &str, recognizer: R) -> (lexer: Lexer<R>)
        ensures
            lexer.input() == normalized(src_code@),
            lexer.position() == 0,
            *lexer.recognizer() == recognizer,
    {
        Lexer { src_code: normalize(src_code), cursor: 0, recognizer }
    }

    /// A lexer at the start of an input that is taken as it stands.
    pub fn from_chars(chars: Vec<char>, recognizer: R) -> (lexer: Lexer<R>)
        ensures
            lexer.input() == chars@,
            lexer.position() == 0,
            *lexer.recognizer() == recognizer,
    {
        Lexer { src_code: chars, cursor: 0, recognizer }
    }

    /// The index of the first character that has not been scanned yet.
    pub fn cursor(&self) -> (pos: usize)
        ensures
            pos == self.position(),
            pos <= self.input().len(),
    {
        proof {
            use_type_invariant(self);
        }
        self.cursor
    }

    /// The normalized input.
    pub fn source(&self) -> (chars: &Vec<char>)
        ensures
            chars@ == self.input(),
    {
        &self.src_code
    }

    /// The next character and its index, without scanning it.
    pub fn peek_char(&self) -> (next: Option<(usize, char)>)
        ensures
            next == (if self.position() < self.input().len() {
                Some((self.position() as usize, self.input()[self.position()]))
            } else {
                None
            }),
    {
        if self.cursor < self.src_code.len() {
            Some((self.cursor, self.src_code[self.cursor]))
        } else {
            None
        }
    }

    /// Moves the lexer back to the start of its input.
    pub fn reset(&mut self)
        ensures
            final(self).input() == old(self).input(),
            final(self).recognizer() == old(self).recognizer(),
            final(self).position() == 0,
    {
        self.cursor = 0;
    }

    /// Scans the next token and moves behind it. At the end of the input
    /// there is no token, and the lexer stays where it is.
    pub fn next(&mut self) -> (token: Option<Token>)
        ensures
            final(self).input() == old(self).input(),
            final(self).recognizer() == old(self).recognizer(),
            old(self).position() >= old(self).input().len() ==> token is None
                && final(self).position() == old(self).position(),
            old(self).position() < old(self).input().len() ==> token == Some(
                next_token(old(self).recognizer(), old(self).input(), old(self).position()),
            ),
            old(self).position() < old(self).input().len() ==> final(self).position() == old(
                self,
            ).position() + next_len(
                old(self).recognizer(),
                old(self).input(),
                old(self).position(),
            ),
            final(self).position() <= final(self).input().len(),
    {
        proof {
            use_type_invariant(&*self);
        }
        if self.cursor >= self.src_code.len() {
            None
        } else {
            let step = scan_token(&self.recognizer, self.src_code.as_slice(), self.cursor);
            self.cursor = self.cursor + step.1;
            Some(step.0)
        }
    }

    /// Resets the lexer and scans the whole input: the table of all its
    /// tokens, in order. The lexer is left at the end of the input.
    pub fn get_token_table(&mut self) -> (tokens: Vec<Token>)
        ensures
            final(self).input() == old(self).input(),
            final(self).recognizer() == old(self).recognizer(),
            final(self).position() == final(self).input().len(),
            tokens@ == tokens_from(old(self).recognizer(), old(self).input(), 0),
            tokens@.len() <= old(self).input().len(),
    {
        let mut tokens: Vec<Token> = Vec::new();
        self.reset();
        let ghost input = self.input();
        let ghost recognizer = self.recognizer();
        loop
            invariant
                self.input() == input,
                self.recognizer() == recognizer,
                0 <= self.position() <= input.len(),
                tokens_from(recognizer, input, 0) == tokens@ + tokens_from(
                    recognizer,
                    input,
                    self.position(),
                ),
            ensures
                self.input() == input,
                self.recognizer() == recognizer,
                self.position() == input.len(),
                tokens@ == tokens_from(recognizer, input, 0),
            decreases input.len() - self.position(),
        {
            let ghost before = self.position();
            proof {
                if before < input.len() {
                    lemma_maximal_munch(recognizer, input, before);
                }
            }
            match self.next() {
                Some(token) => {
                    tokens.push(token);
                },
                None => {
                    break ;
                },
            }
        }
        proof {
            lemma_tokens_bounded(recognizer, input, 0);
        }
        tokens
    }
}

/// Two recognizers that accept the same strings as the same tokens find
/// the same longest match.
pub proof fn lemma_same_longest_match<R: TokenRecognizer, S: TokenRecognizer>(
    first: &R,
    second: &S,
    input: Seq<char>,
    pos: int,
    limit: int,
)
    requires
        forall|text: Seq<char>| #[trigger] first.recognized(text) == second.recognized(text),
    ensures
        longest_match(first, input, pos, limit) == longest_match(second, input, pos, limit),
    decreases limit,
{
    if limit > 0 {
        lemma_same_longest_match(first, second, input, pos, limit - 1);
    }
}

/// What a scan yields depends on the input and on what the recognizer
/// accepts, and on nothing else: two recognizers that accept the same
/// strings as the same tokens, within the same reach, yield the same
/// tokens for every input.
pub proof fn lemma_same_recognizer_same_tokens<R: TokenRecognizer, S: TokenRecognizer>(
    first: &R,
    second: &S,
    input: Seq<char>,
    pos: int,
)
    requires
        first.reach() == second.reach(),
        forall|text: Seq<char>| #[trigger] first.recognized(text) == second.recognized(text),
    ensures
        tokens_from(first, input, pos) == tokens_from(second, input, pos),
    decreases input.len() - pos,
{
    if 0 <= pos < input.len() {
        let limit = window(input, pos, first.reach() as int);
        lemma_same_longest_match(first, second, input, pos, limit);
        lemma_maximal_munch(first, input, pos);
        lemma_same_recognizer_same_tokens(
            first,
            second,
            input,
            pos + next_len(first, input, pos),
        );
    }
}

} // verus!
