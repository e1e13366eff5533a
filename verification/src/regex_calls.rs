//! The library's calls into the `regex` crate.
//!
//! A regular expression is carried through the library as its pattern text;
//! each call below compiles the pattern (`regex::Regex::new`) and applies one
//! operation. What a pattern matches is left to the crate and is named, not
//! restated; for a pattern produced by `regex::escape` (which is stated in
//! full) the crate documents that it matches its source text literally, and
//! that fact is stated.

use vstd::prelude::*;
use crate::text::{contains, replace_first};

verus! {

/// Whether `regex::escape` puts a backslash before `c`: the characters
/// that `regex_syntax::is_meta_character` lists.
pub open spec fn is_meta_character(c: char) -> bool {
    c == '\\' || c == '.' || c == '+' || c == '*' || c == '?' || c == '(' || c == ')' || c == '|'
        || c == '[' || c == ']' || c == '{' || c == '}' || c == '^' || c == '$' || c == '#' || c == '&'
        || c == '-' || c == '~'
}

/// What `regex::escape` returns for a text: each character in turn, with a
/// backslash before each meta character.
pub open spec fn regex_escaped(text: Seq<char>) -> Seq<char>
    decreases text.len(),
{
    if text.len() == 0 {
        Seq::empty()
    } else {
        let c = text.last();
        regex_escaped(text.drop_last()) + if is_meta_character(c) {
            seq!['\\', c]
        } else {
            seq![c]
        }
    }
}

/// What `Regex::is_match` answers for a pattern and a haystack; `None` when
/// the pattern does not compile.
pub uninterp spec fn regex_match(pattern: Seq<char>, haystack: Seq<char>) -> Option<bool>;

/// What `Regex::replace` with a `NoExpand` replacement returns; `None` when
/// the pattern does not compile.
pub uninterp spec fn regex_replaced(pattern: Seq<char>, haystack: Seq<char>, rep: Seq<char>) -> Option<Seq<char>>;

/// Capture groups 1 and 2 of the first match (`Regex::captures`); `None`
/// when the pattern does not compile, nothing matches, or either group did
/// not participate.
pub uninterp spec fn regex_two_groups(pattern: Seq<char>, haystack: Seq<char>) -> Option<(Seq<char>, Seq<char>)>;

/// Calls `regex::escape`: the pattern that matches `text` literally, each
/// meta character preceded by a backslash.
#[verifier::external_body]
pub(crate) fn regex_escape(text: &str) -> (r: String)
    ensures
        r@ == regex_escaped(text@),
{
    regex::escape(text)
}

/// Compiles `pattern` (`Regex::new`) and calls `Regex::is_match` on
/// `haystack`. For a pattern made by `regex::escape`, which the crate
/// documents "may be safely used as a literal", the answer is whether the
/// literal occurs in the haystack.
#[verifier::external_body]
pub(crate) fn regex_is_match(pattern: &str, haystack: &str) -> (r: Option<bool>)
    ensures
        r == regex_match(pattern@, haystack@),
        forall|lit: Seq<char>|
            #![trigger regex_escaped(lit)]
            regex_escaped(lit) == pattern@ && r is Some ==> r == Some(contains(haystack@, lit)),
{
    match regex::Regex::new(pattern) {
        Ok(re) => Some(re.is_match(haystack)),
        Err(_) => None,
    }
}

/// Compiles `pattern` and calls `Regex::replace` with `NoExpand(rep)`, which
/// replaces the leftmost-first match with `rep` taken literally. For a pattern
/// made by `regex::escape` that is the first occurrence of the literal.
#[verifier::external_body]
pub(crate) fn regex_replace_no_expand(pattern: &str, haystack: &str, rep: &str) -> (r: Option<String>)
    ensures
        match r {
            Some(s) => regex_replaced(pattern@, haystack@, rep@) == Some(s@),
            None => regex_replaced(pattern@, haystack@, rep@) is None,
        },
        forall|lit: Seq<char>|
            #![trigger regex_escaped(lit)]
            regex_escaped(lit) == pattern@ && r is Some ==> r->0@ == replace_first(haystack@, lit, rep@),
{
    match regex::Regex::new(pattern) {
        Ok(re) => Some(re.replace(haystack, regex::NoExpand(rep)).into_owned()),
        Err(_) => None,
    }
}

/// Compiles `pattern` and calls `Regex::captures` on `haystack`, handing
/// out capture groups 1 and 2 of the first match.
#[verifier::external_body]
pub(crate) fn regex_captures_two(pattern: &str, haystack: &str) -> (r: Option<(String, String)>)
    ensures
        match r {
            Some((a, b)) => regex_two_groups(pattern@, haystack@) == Some((a@, b@)),
            None => regex_two_groups(pattern@, haystack@) is None,
        },
{
    let re = regex::Regex::new(pattern).ok()?;
    let caps = re.captures(haystack)?;
    Some((caps.get(1)?.as_str().to_string(), caps.get(2)?.as_str().to_string()))
}

} // verus!
