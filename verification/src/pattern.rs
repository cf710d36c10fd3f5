//! Regular-expression matching, delegated to the `regex` crate.
use vstd::prelude::*;

verus! {

/// Whether `Regex::new` accepts the pattern with these characters.
pub uninterp spec fn regex_compiles(pattern: Seq<char>) -> bool;

/// What `Regex::is_match` answers for the compiled pattern on the haystack.
pub uninterp spec fn regex_finds(pattern: Seq<char>, haystack: Seq<char>) -> bool;

/// Calls `regex::Regex::new` and reports whether it succeeded.  Claims only
/// that the answer depends on the pattern text alone.
#[verifier::external_body]
pub(crate) fn regex_is_valid(pattern: &str) -> (b: bool)
    ensures
        b == regex_compiles(pattern@),
{
    regex::Regex::new(pattern).is_ok()
}

/// Compiles `pattern` with `regex::Regex::new` and, when that succeeds, runs
/// `Regex::is_match` on `haystack`; false when the pattern does not compile.
/// Claims that the answer depends on the two texts alone.
#[verifier::external_body]
pub(crate) fn regex_is_match(pattern: &str, haystack: &str) -> (b: bool)
    ensures
        b == (regex_compiles(pattern@) && regex_finds(pattern@, haystack@)),
{
    match regex::Regex::new(pattern) {
        Ok(re) => re.is_match(haystack),
        Err(_) => false,
    }
}

} // verus!
