//! The names under which tests are reported.

use vstd::prelude::*;
use crate::text::{contains, str_contains};

verus! {

/// `regex::Regex`: a compiled pattern, opaque to the proofs.
#[verifier::external_type_specification]
#[verifier::external_body]
pub struct ExRegex(regex::Regex);

/// What `Regex::new` makes of a pattern: the compiled pattern, or nothing
/// where the pattern is not accepted.
pub uninterp spec fn regex_compiled(pattern: Seq<char>) -> Option<regex::Regex>;

/// What `Regex::replace` returns: `text` with the leftmost match of the
/// pattern replaced by `replacement`, or `text` itself where nothing matches.
pub uninterp spec fn regex_replaced(
    pattern: regex::Regex,
    text: Seq<char>,
    replacement: Seq<char>,
) -> Seq<char>;

/// `Regex::new`: compiles `pattern`; `None` where the crate refuses it.
#[verifier::external_body]
pub(crate) fn regex_new(pattern: &str) -> (r: Option<regex::Regex>)
    ensures
        r == regex_compiled(pattern@),
{
    regex::Regex::new(pattern).ok()
}

/// `Regex::replace`: replaces the leftmost match of `pattern` in `text`.
#[verifier::external_body]
pub(crate) fn regex_replace(pattern: &regex::Regex, text: &str, replacement: &str) -> (r: String)
    ensures
        r@ == regex_replaced(*pattern, text@, replacement@),
{
    pattern.replace(text, replacement).into_owned()
}

/// Whether the pattern matches somewhere in a text, as `Regex::is_match`
/// finds it.
pub uninterp spec fn regex_matches(pattern: regex::Regex, text: Seq<char>) -> bool;

/// `Regex::is_match`: whether `pattern` matches somewhere in `text`.
#[verifier::external_body]
pub(crate) fn regex_is_match(pattern: &regex::Regex, text: &str) -> (r: bool)
    ensures
        r == regex_matches(*pattern, text@),
{
    pattern.is_match(text)
}

/// The pattern of the module that is generated around a suite's tests: a
/// path segment that begins with `__sheila_` and ends with `_tests`,
/// between two path separators.
pub open spec fn generated_module() -> Seq<char> {
    "::(__sheila_[^:]+_tests)::"@
}

/// The name under which a test is reported: the name itself where it does
/// not hold `__sheila_`; else the name with the first generated module
/// segment, separators included, replaced by one separator.
pub open spec fn mod_name(name: Seq<char>) -> Seq<char> {
    if !contains(name, "__sheila_"@) {
        name
    } else {
        match regex_compiled(generated_module()) {
            Some(pattern) => regex_replaced(pattern, name, "::"@),
            None => name,
        }
    }
}

/// The name under which the test or suite `name` is reported.
pub fn format_mod_name(name: &str) -> (r: String)
    ensures
        r@ == mod_name(name@),
{
    if str_contains(name, "__sheila_") {
        match regex_new("::(__sheila_[^:]+_tests)::") {
            Some(pattern) => regex_replace(&pattern, name, "::"),
            None => name.to_owned(),
        }
    } else {
        name.to_owned()
    }
}

} // verus!
