//! Regular-expression matching, relied on for the converter's path filter and
//! for ignore-file patterns.

use vstd::prelude::*;

verus! {

/// Whether `pattern` is a regular expression that `regex::Regex::new`
/// accepts: a function of the pattern text alone.
pub uninterp spec fn regex_ok(pattern: Seq<char>) -> bool;

/// Whether the regular expression `pattern` matches somewhere in `text`: a
/// function of the two texts alone.
pub uninterp spec fn regex_accepts(pattern: Seq<char>, text: Seq<char>) -> bool;

/// Relies on `regex::Regex::new` (whether a pattern compiles depends on the
/// pattern text alone) and `regex::Regex::is_match` (whether a compiled
/// pattern matches depends on the pattern and haystack texts alone).
#[verifier::external_body]
pub fn regex_is_match(pattern: &str, text: &str) -> (r: Option<bool>)
    ensures
        r is Some <==> regex_ok(pattern@),
        match r {
            Some(b) => b == regex_accepts(pattern@, text@),
            None => true,
        },
{
    match regex::Regex::new(pattern) {
        Ok(re) => Some(re.is_match(text)),
        Err(_) => None,
    }
}

} // verus!
