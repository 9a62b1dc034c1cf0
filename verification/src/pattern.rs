//! The compiled search pattern.
//!
//! Compiling and running a regular expression is left to `fancy_regex`; what
//! it answers is named here so that the rest of the library can speak of it.

use vstd::prelude::*;

verus! {

/// `fancy_regex::Regex`, a compiled expression. Nothing is known of what
/// it holds.
#[verifier::external_type_specification]
#[verifier::external_body]
pub struct ExRegex(fancy_regex::Regex);

/// `fancy_regex::Error`, what compiling or searching fails with. Nothing
/// is known of what it holds.
#[verifier::external_type_specification]
#[verifier::external_body]
pub struct ExRegexError(fancy_regex::Error);

/// What `fancy_regex::Regex::new` makes of `pattern`: the compiled
/// expression, or `None` where the pattern is refused.
pub uninterp spec fn compiled_pattern(pattern: Seq<char>) -> Option<fancy_regex::Regex>;

/// What a search of `text` from its start with `re` gives: whether a match
/// was found anywhere, or `None` where the engine gave up.
pub uninterp spec fn pattern_search(re: fancy_regex::Regex, text: Seq<char>) -> Option<bool>;

/// Calls `fancy_regex::Regex::new`. The outcome depends on the pattern alone:
/// it is `Ok` exactly where `compiled_pattern` is `Some`, and then holds that
/// expression.
#[verifier::external_body]
pub(crate) fn compile(pattern: &str) -> (r: Result<fancy_regex::Regex, fancy_regex::Error>)
    ensures
        r is Ok <==> compiled_pattern(pattern@) is Some,
        r matches Ok(re) ==> compiled_pattern(pattern@) == Some(re),
{
    fancy_regex::Regex::new(pattern)
}

/// Calls `fancy_regex::Regex::captures_from_pos` at position 0 and keeps
/// whether a match came back. The outcome depends on the expression and the
/// text alone: it is `Ok(found)` exactly where `pattern_search` is
/// `Some(found)`.
#[verifier::external_body]
pub(crate) fn search(re: &fancy_regex::Regex, text: &str) -> (r: Result<bool, fancy_regex::Error>)
    ensures
        r is Ok <==> pattern_search(*re, text@) is Some,
        r matches Ok(found) ==> pattern_search(*re, text@) == Some(found),
{
    match re.captures_from_pos(text, 0) {
        Ok(captures) => Ok(captures.is_some()),
        Err(e) => Err(e),
    }
}

} // verus!
