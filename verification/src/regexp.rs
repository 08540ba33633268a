//! Regular-expression matching for targeting conditions.
//!
//! A condition's pattern comes from the server and may be invalid; the
//! matcher must tell "pattern does not compile" (the condition is skipped)
//! apart from "pattern compiles and does not match" (the condition is
//! false).  Both compilation and matching are pure functions of the pattern
//! and the text, named below so that contracts can speak of them.

use vstd::prelude::*;

verus! {

/// Whether `pattern` is a well-formed regular expression.
pub uninterp spec fn regex_valid(pattern: Seq<char>) -> bool;

/// Whether `pattern` matches somewhere in `text`.
pub uninterp spec fn regex_match(pattern: Seq<char>, text: Seq<char>) -> bool;

/// Relies on `regex::Regex::new` and `regex::Regex::is_match`: whether a
/// pattern compiles depends on the pattern alone, and whether a compiled
/// pattern matches a text depends on the pattern and the text alone; `None`
/// reports a pattern that does not compile.
#[verifier::external_body]
pub(crate) fn regex_is_match(pattern: &str, text: &str) -> (r: Option<bool>)
    ensures
        r is Some <==> regex_valid(pattern@),
        r matches Some(m) ==> m == regex_match(pattern@, text@),
{
    match regex::Regex::new(pattern) {
        Ok(re) => Some(re.is_match(text)),
        Err(_) => None,
    }
}

} // verus!
