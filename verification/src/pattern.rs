//! Searching a text for a regular expression, as the `regex` crate does.

use regex::Regex;
use vstd::prelude::*;

verus! {

/// Whether the regular expression `pattern` matches anywhere in `text`;
/// `None` where `pattern` is not an expression that can be compiled.
pub uninterp spec fn regex_search(pattern: Seq<char>, text: Seq<char>) -> Option<bool>;

/// `regex::Regex::new` on `pattern`, then `Regex::is_match` on `text`: the
/// result is the outcome of that search, a function of the two texts, and
/// `None` where `Regex::new` returns an error.
#[verifier::external_body]
pub(crate) fn search(pattern: &str, text: &str) -> (r: Option<bool>)
    ensures
        r == regex_search(pattern@, text@),
{
    match Regex::new(pattern) {
        Ok(expression) => Some(expression.is_match(text)),
        Err(_) => None,
    }
}

} // verus!
