//! Case-insensitive name patterns, compiled once and tested against base
//! names.

use regex::RegexBuilder;
use vstd::prelude::*;

verus! {

#[verifier::external_type_specification]
#[verifier::external_body]
pub struct ExRegex(regex::Regex);

/// Whether `pattern` compiles as a case-insensitive regular expression.
pub uninterp spec fn ci_pattern_compiles(pattern: Seq<char>) -> bool;

/// The diagnostic given when `pattern` does not compile as a
/// case-insensitive regular expression.
pub uninterp spec fn ci_pattern_diagnostic(pattern: Seq<char>) -> Seq<char>;

/// Whether the case-insensitive regular expression `pattern` matches
/// somewhere in `text`.
pub uninterp spec fn ci_pattern_matches(pattern: Seq<char>, text: Seq<char>) -> bool;

/// A compiled case-insensitive pattern, together with its source text.
pub struct NameMatcher {
    re: regex::Regex,
    pattern: String,
}

/// Relies on regex::RegexBuilder with `case_insensitive(true)` and `build`:
/// it succeeds exactly for the patterns that compile, and its error displays
/// the syntax diagnostic. The matcher keeps the pattern it was built from.
#[verifier::external_body]
fn build_case_insensitive(pattern: &str) -> (r: Result<NameMatcher, String>)
    ensures
        r is Ok <==> ci_pattern_compiles(pattern@),
        r matches Ok(m) ==> m.pattern@ == pattern@,
        r matches Err(e) ==> e@ == ci_pattern_diagnostic(pattern@),
{
    match RegexBuilder::new(pattern).case_insensitive(true).build() {
        Ok(re) => Ok(NameMatcher { re, pattern: pattern.to_string() }),
        Err(e) => Err(e.to_string()),
    }
}

/// Relies on regex::Regex::is_match: whether the compiled pattern matches
/// somewhere in `text`.
#[verifier::external_body]
fn regex_is_match(m: &NameMatcher, text: &str) -> (r: bool)
    ensures
        r == ci_pattern_matches(m.pattern@, text@),
{
    m.re.is_match(text)
}

impl NameMatcher {
    /// The pattern text this matcher was compiled from.
    pub closed spec fn source(&self) -> Seq<char> {
        self.pattern@
    }

    /// Compiles `pattern` case-insensitively; the error is the diagnostic.
    pub fn new(pattern: &str) -> (r: Result<NameMatcher, String>)
        ensures
            r is Ok <==> ci_pattern_compiles(pattern@),
            r matches Ok(m) ==> m.source() == pattern@,
            r matches Err(e) ==> e@ == ci_pattern_diagnostic(pattern@),
    {
        build_case_insensitive(pattern)
    }

    /// Whether the pattern matches somewhere in `name`.
    pub fn is_match(&self, name: &str) -> (r: bool)
        ensures
            r == ci_pattern_matches(self.source(), name@),
    {
        regex_is_match(self, name)
    }

    /// The pattern text this matcher was compiled from.
    pub fn pattern(&self) -> (r: &str)
        ensures
            r@ == self.source(),
    {
        self.pattern.as_str()
    }
}

} // verus!
