//! Regular expressions for the search tool, compiled by the `regex` crate.

use vstd::prelude::*;

verus! {

/// Whether `regex::Regex::new` accepts the pattern.
pub uninterp spec fn regex_accepts(pattern: Seq<char>) -> bool;

/// The text (its `Display`) of the error that `regex::Regex::new` gives
/// for a pattern that it rejects.
pub uninterp spec fn regex_error_message(pattern: Seq<char>) -> Seq<char>;

/// Whether the regular expression compiled from `pattern` finds a match in
/// `haystack`, as `regex::Regex::is_match` answers.
pub uninterp spec fn regex_finds(pattern: Seq<char>, haystack: Seq<char>) -> bool;

/// `regex::Regex`, carried through opaquely.
#[verifier::external_type_specification]
#[verifier::external_body]
pub struct ExRegex(regex::Regex);

/// A regular expression together with the pattern it was compiled from.
/// Its fields are private to this module, and the only code that builds
/// one is `build_pattern`, which compiles the very pattern it stores.
pub struct LinePattern {
    source: String,
    compiled: regex::Regex,
}

impl LinePattern {
    /// The pattern that this expression was compiled from.
    pub closed spec fn source(&self) -> Seq<char> {
        self.source@
    }

    /// Calls `regex::Regex::is_match` on the compiled expression. The claim
    /// is that the answer is `regex_finds` of the source pattern, which holds
    /// because `build_pattern` is the only place that builds a `LinePattern`.
    #[verifier::external_body]
    pub(crate) fn is_match(&self, line: &str) -> (res: bool)
        ensures
            res == regex_finds(self.source(), line@),
    {
        self.compiled.is_match(line)
    }
}

/// Calls `regex::Regex::new(pattern)` and keeps the pattern beside the
/// compiled expression; a rejected pattern gives the error's text. The
/// claims are that success depends on the pattern alone, that the kept
/// source is the pattern, and that the error text is a function of the
/// pattern.
#[verifier::external_body]
pub(crate) fn build_pattern(pattern: &str) -> (res: Result<LinePattern, String>)
    ensures
        res is Ok <==> regex_accepts(pattern@),
        res matches Ok(p) ==> p.source() == pattern@,
        res matches Err(m) ==> m@ == regex_error_message(pattern@),
{
    match regex::Regex::new(pattern) {
        Ok(compiled) => Ok(LinePattern { source: pattern.to_string(), compiled }),
        Err(e) => Err(e.to_string()),
    }
}

} // verus!
