//! The regular-expression engine of the `regex` crate, behind trusted
//! declarations.
//!
//! Which patterns compile, and whether a pattern matches a text, are
//! deterministic functions of the pattern and the text alone, so they are
//! given names (`ere_valid`, `ere_match`) that the contracts of the
//! wrappers below apply; nothing else is assumed of them.

use vstd::prelude::*;

verus! {

/// The `regex` crate's compiled regular expression.
#[verifier::external_type_specification]
#[verifier::external_body]
pub struct ExRegex(regex::Regex);

/// Whether the `regex` crate accepts this pattern text.
pub uninterp spec fn ere_valid(pattern: Seq<char>) -> bool;

/// Whether the pattern matches somewhere inside the text, as the `regex`
/// crate decides it.
pub uninterp spec fn ere_match(pattern: Seq<char>, text: Seq<char>) -> bool;

/// The pattern text a compiled regular expression was built from.
pub uninterp spec fn regex_pattern(r: regex::Regex) -> Seq<char>;

/// Relies on regex::Regex::new: compilation succeeds exactly on the
/// patterns the crate accepts, and the result remembers its pattern.
#[verifier::external_body]
pub fn compile_ere(pattern: &str) -> (r: Option<regex::Regex>)
    ensures
        r is Some <==> ere_valid(pattern@),
        r matches Some(re) ==> regex_pattern(re) == pattern@,
{
    match regex::Regex::new(pattern) {
        Ok(re) => Some(re),
        Err(_) => None,
    }
}

/// Relies on regex::Regex::is_match: true exactly when the compiled
/// pattern matches somewhere in the text.
#[verifier::external_body]
pub fn ere_is_match(re: &regex::Regex, text: &str) -> (r: bool)
    ensures
        r == ere_match(regex_pattern(*re), text@),
{
    re.is_match(text)
}

} // verus!
