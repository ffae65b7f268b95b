//! Variables found by a regular expression: a letter, and behind it an
//! underscore with digits or nothing.

use vstd::prelude::*;

verus! {

/// The pattern of a variable: a letter with an optional subscript.
pub const VARIABLE_PATTERN: &'static str = "[A-Za-z](_\\d+)?";

/// What `regex::Regex::is_match` answers for a haystack once
/// `regex::Regex::new` has compiled the pattern, and nothing where the
/// pattern does not compile.
pub uninterp spec fn pattern_is_match(pattern: Seq<char>, haystack: Seq<char>) -> Option<bool>;

/// The whole matches that `regex::Regex::captures_iter` yields for a
/// haystack, in order, once `regex::Regex::new` has compiled the pattern,
/// and nothing where the pattern does not compile.
pub uninterp spec fn pattern_captures(pattern: Seq<char>, haystack: Seq<char>) -> Option<
    Seq<Seq<char>>,
>;

/// What the texts of a list hold.
pub open spec fn texts(list: Seq<String>) -> Seq<Seq<char>> {
    list.map_values(|text: String| text@)
}

/// What a list of matches holds, where there is one.
pub open spec fn captures_view(found: Option<Vec<String>>) -> Option<Seq<Seq<char>>> {
    match found {
        Some(list) => Some(texts(list@)),
        None => None,
    }
}

/// Compiles `pattern` with `regex::Regex::new` and asks
/// `regex::Regex::is_match` whether the pattern matches anywhere in
/// `haystack`. The contract names the answer; it says nothing of which
/// patterns compile or what they match.
#[verifier::external_body]
fn regex_is_match(pattern: &str, haystack: &str) -> (found: Option<bool>)
    ensures
        found == pattern_is_match(pattern@, haystack@),
{
    match regex::Regex::new(pattern) {
        Ok(compiled) => Some(compiled.is_match(haystack)),
        Err(_) => None,
    }
}

/// Compiles `pattern` with `regex::Regex::new` and collects the whole
/// match of every capture that `regex::Regex::captures_iter` yields for
/// `haystack`. The contract names the list; it says nothing of which
/// patterns compile or what they match.
#[verifier::external_body]
fn regex_captures(pattern: &str, haystack: &str) -> (found: Option<Vec<String>>)
    ensures
        captures_view(found) == pattern_captures(pattern@, haystack@),
{
    match regex::Regex::new(pattern) {
        Ok(compiled) => Some(
            compiled.captures_iter(haystack).map(|capture| capture[0].to_string()).collect(),
        ),
        Err(_) => None,
    }
}

/// The word for a sequence that holds a variable, and for one that holds
/// none.
pub open spec fn validity(found: bool) -> Seq<char> {
    if found {
        "valid"@
    } else {
        "invalid"@
    }
}

/// The word for a sequence that holds a variable, and for one that holds
/// none.
pub fn validity_label(found: bool) -> (label: &'static str)
    ensures
        label@ == validity(found),
{
    if found {
        "valid"
    } else {
        "invalid"
    }
}

/// Whether `term` holds at least one variable, as a word; nothing where the
/// pattern of a variable does not compile.
pub fn variable_status(term: &str) -> (label: Option<&'static str>)
    ensures
        match label {
            Some(label) => pattern_is_match(VARIABLE_PATTERN@, term@) matches Some(found)
                && label@ == validity(found),
            None => pattern_is_match(VARIABLE_PATTERN@, term@) is None,
        },
{
    match regex_is_match(VARIABLE_PATTERN, term) {
        Some(found) => Some(validity_label(found)),
        None => None,
    }
}

/// The variables that `term` holds, in order; nothing where the pattern of
/// a variable does not compile.
pub fn variables_in(term: &str) -> (found: Option<Vec<String>>)
    ensures
        captures_view(found) == pattern_captures(VARIABLE_PATTERN@, term@),
{
    regex_captures(VARIABLE_PATTERN, term)
}

} // verus!
