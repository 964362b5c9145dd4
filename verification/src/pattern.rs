//! Trusted window onto the regex crate and onto case folding.
//!
//! A pattern's validity and what it matches, and what lowercasing a string
//! yields, are functions of the strings alone; they are given names here and
//! the calls that produce them are stated over those names.

use vstd::prelude::*;

verus! {

/// The pattern compiles as a regular expression.
pub uninterp spec fn regex_ok(pattern: Seq<char>) -> bool;

/// A valid pattern is found somewhere within the text.
pub uninterp spec fn regex_match(pattern: Seq<char>, text: Seq<char>) -> bool;

/// The lowercase form of a string.
pub uninterp spec fn lower_of(s: Seq<char>) -> Seq<char>;

/// Relies on regex::Regex::new: whether a pattern compiles depends on the
/// pattern alone.
#[verifier::external_body]
pub(crate) fn regex_pattern_ok(pattern: &str) -> (r: bool)
    ensures
        r == regex_ok(pattern@),
{
    regex::Regex::new(pattern).is_ok()
}

/// Relies on regex::Regex::new and regex::Regex::is_match: whether a valid
/// pattern is found somewhere in a text depends on the two strings alone,
/// and an invalid pattern is found nowhere.
#[verifier::external_body]
pub(crate) fn regex_find(pattern: &str, text: &str) -> (r: bool)
    ensures
        regex_ok(pattern@) ==> r == regex_match(pattern@, text@),
        !regex_ok(pattern@) ==> r == false,
{
    match regex::Regex::new(pattern) {
        Ok(re) => re.is_match(text),
        Err(_) => false,
    }
}

/// Relies on str::to_lowercase: the result depends on the characters alone.
#[verifier::external_body]
pub(crate) fn to_lower(s: &str) -> (r: String)
    ensures
        r@ == lower_of(s@),
{
    s.to_lowercase()
}

} // verus!
