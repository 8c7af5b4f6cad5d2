//! Regular expressions, as the regex crate compiles and applies them.

use regex::Regex;
use vstd::prelude::*;

verus! {

/// A compiled regular expression of the regex crate.
#[verifier::external_type_specification]
#[verifier::external_body]
pub struct ExRegex(Regex);

/// The error with which the regex crate refuses a pattern.
#[verifier::external_type_specification]
#[verifier::external_body]
pub struct ExRegexError(regex::Error);

/// Whether `Regex::new` accepts `pattern`.
pub uninterp spec fn pattern_compiles(pattern: Seq<char>) -> bool;

/// What `Regex::replace_all` makes of `text` for the regular expression
/// `pattern` and the replacement `replacement`.
pub uninterp spec fn regex_replaced(
    pattern: Seq<char>,
    text: Seq<char>,
    replacement: Seq<char>,
) -> Seq<char>;

/// `Regex::new` compiles a pattern or refuses it. Which patterns it accepts
/// is the crate's grammar and size limit: the contract only names the verdict.
pub assume_specification[ Regex::new ](re: &str) -> (out: Result<Regex, regex::Error>)
    ensures
        out is Ok == pattern_compiles(re@),
;

/// The words in which the regex crate explains a refusal, as the error's
/// `Display` gives them. Nothing is claimed of them.
#[verifier::external_body]
pub(crate) fn refusal_text(error: &regex::Error) -> (out: String) {
    error.to_string()
}

/// Compiles `pattern` with `Regex::new` and replaces every match in `text`
/// with `Regex::replace_all`. Nothing comes back where the pattern is
/// refused; what comes back otherwise is named, not restated.
#[verifier::external_body]
pub(crate) fn replace_matches(pattern: &str, text: &str, replacement: &str) -> (out: Option<String>)
    ensures
        out is Some == pattern_compiles(pattern@),
        out matches Some(replaced) ==> replaced@ == regex_replaced(
            pattern@,
            text@,
            replacement@,
        ),
{
    match Regex::new(pattern) {
        Ok(regex) => Some(regex.replace_all(text, replacement).into_owned()),
        Err(_) => None,
    }
}

} // verus!
