//! Regular expressions.

use vstd::prelude::*;

verus! {

/// What is wrong with a regular expression, where something is.
pub uninterp spec fn pattern_fault(pattern: Seq<char>) -> Option<Seq<char>>;

/// `regex::Regex::new` compiles a regular expression, or says in words what is
/// wrong with it. The language of expressions is left unsaid: the complaint is
/// named as a function of the expression.
#[verifier::external_body]
pub(crate) fn pattern_error(pattern: &str) -> (fault: Option<String>)
    ensures
        crate::text::maybe_text(fault) == pattern_fault(pattern@),
{
    regex::Regex::new(pattern).err().map(|error| error.to_string())
}

/// Whether a regular expression matches somewhere in a text.
pub uninterp spec fn pattern_found(pattern: Seq<char>, text: Seq<char>) -> bool;

/// `regex::Regex::is_match` says whether an expression matches somewhere in a
/// text. The language of expressions is left unsaid: the answer is named as a
/// function of both, and is no for an expression that does not compile.
#[verifier::external_body]
pub(crate) fn pattern_matches(pattern: &str, text: &str) -> (found: bool)
    ensures
        found == pattern_found(pattern@, text@),
{
    regex::Regex::new(pattern).map(|compiled| compiled.is_match(text)).unwrap_or(false)
}

} // verus!
