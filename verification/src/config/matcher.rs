//! Regular expressions for mapping rules, by way of the `regex` crate.

use vstd::prelude::*;

verus! {

#[verifier::external_type_specification]
#[verifier::external_body]
pub struct ExRegex(regex::Regex);

/// The pattern text that a compiled `regex::Regex` was built from.
pub uninterp spec fn regex_source(re: &regex::Regex) -> Seq<char>;

/// Whether `regex::Regex::new` accepts a pattern.
pub uninterp spec fn regex_compiles(pattern: Seq<char>) -> bool;

/// Whether the regular expression compiled from `pattern` finds a match
/// somewhere in `text`.
pub uninterp spec fn regex_matches(pattern: Seq<char>, text: Seq<char>) -> bool;

/// `regex::Regex::new`: compiles a pattern. There is a result exactly for the
/// patterns that the crate accepts, and it remembers the pattern it was built
/// from.
#[verifier::external_body]
pub(crate) fn compile(pattern: &str) -> (r: Option<regex::Regex>)
    ensures
        r is Some == regex_compiles(pattern@),
        r matches Some(re) ==> regex_source(&re) == pattern@,
{
    regex::Regex::new(pattern).ok()
}

/// `regex::Regex::is_match`: whether the expression matches anywhere in the
/// text, which depends on its pattern and the text alone.
#[verifier::external_body]
pub(crate) fn is_match(re: &regex::Regex, text: &str) -> (r: bool)
    ensures
        r == regex_matches(regex_source(re), text@),
{
    re.is_match(text)
}

} // verus!
