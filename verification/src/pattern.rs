//! Compiled search patterns. Compilation and per-line matching are done by
//! the grep-regex engine; everything the rest of the crate knows about them
//! is stated here.

use grep_matcher::Matcher;
use vstd::prelude::*;

verus! {

/// The verdict of the pattern engine on a pattern text: whether
/// `grep_regex::RegexMatcher::new` accepts it. It depends on the pattern text
/// alone.
pub uninterp spec fn regex_compiles(pattern: Seq<char>) -> bool;

/// The verdict of a matcher compiled from `pattern` on `line`: whether the
/// expression matches somewhere in the line. It depends on the pattern text
/// and the line alone.
pub uninterp spec fn regex_accepts(pattern: Seq<char>, line: Seq<char>) -> bool;

#[verifier::external_type_specification]
#[verifier::external_body]
pub struct ExRegexMatcher(grep_regex::RegexMatcher);

#[verifier::external_type_specification]
#[verifier::external_body]
pub struct ExRegexError(grep_regex::Error);

/// Relies on `grep_regex::RegexMatcher::new`: with the default configuration
/// it compiles the pattern text or rejects it, and its verdict depends on the
/// pattern text alone.
#[verifier::external_body]
fn compile_raw(pattern: &str) -> (r: Result<grep_regex::RegexMatcher, grep_regex::Error>)
    ensures
        r is Ok <==> regex_compiles(pattern@),
{
    grep_regex::RegexMatcher::new(pattern)
}

/// A compiled pattern, paired with the text it was compiled from.
pub struct Pattern {
    matcher: grep_regex::RegexMatcher,
    source: String,
}

impl View for Pattern {
    type V = Seq<char>;

    closed spec fn view(&self) -> Seq<char> {
        self.source@
    }
}

impl Pattern {
    /// Compiles `pattern`; succeeds on exactly the texts the pattern engine
    /// accepts.
    pub fn compile(pattern: &str) -> (r: Option<Pattern>)
        ensures
            r is Some <==> regex_compiles(pattern@),
            (r matches Some(p) ==> p@ == pattern@),
    {
        match compile_raw(pattern) {
            Ok(m) => Some(Pattern { matcher: m, source: pattern.to_owned() }),
            Err(_) => None,
        }
    }

    /// Relies on `grep_matcher::Matcher::is_match` as grep-regex implements
    /// it: whether the expression matches somewhere in the line. The verdict
    /// is deterministic in the pattern text the matcher was compiled from
    /// (this module builds every `Pattern` through `compile`) and in the
    /// line; grep-regex's matcher error type has no values, so the call
    /// cannot fail.
    #[verifier::external_body]
    pub(crate) fn is_match(&self, line: &str) -> (b: bool)
        ensures
            b == regex_accepts(self@, line@),
    {
        self.matcher.is_match(line.as_bytes()).unwrap_or(false)
    }
}

} // verus!
