//! Compiled search patterns, backed by the `regex` crate.
//!
//! A [`Pattern`] bundles a compiled regular expression with the pattern text
//! and the case-insensitivity flag it was built from. Whether a given text
//! matches is named by the uninterpreted function [`regex_accepts`]; every
//! statement the library proves about matching goes through that name.

use vstd::prelude::*;

verus! {

/// What `regex::Regex::is_match` returns when a pattern compiled with the
/// given case-insensitivity flag is run over the given text. The result is a
/// function of the pattern, the flag and the text alone.
pub uninterp spec fn regex_accepts(pattern: Seq<char>, case_insensitive: bool, text: Seq<char>) -> bool;

/// Whether `regex::RegexBuilder::build` accepts the pattern as a valid
/// regular expression under the given case-insensitivity flag.
pub uninterp spec fn regex_compiles(pattern: Seq<char>, case_insensitive: bool) -> bool;

/// What `regex::escape` returns: the text with every regular-expression meta
/// character escaped, so that the result matches the text literally.
pub uninterp spec fn regex_escaped(text: Seq<char>) -> Seq<char>;

/// Declares `regex::Regex` to the verifier; values of it are opaque and are
/// only carried through.
#[verifier::external_type_specification]
#[verifier::external_body]
pub struct ExRegex(regex::Regex);

/// A compiled search pattern.
///
/// The fields are private: [`Pattern::compile`] is the only constructor, so
/// the compiled expression always stems from `source` and `case_insensitive`.
pub struct Pattern {
    regex: regex::Regex,
    source: String,
    case_insensitive: bool,
}

impl Pattern {
    /// The pattern text the expression was compiled from.
    pub closed spec fn spec_source(&self) -> Seq<char> {
        self.source@
    }

    /// Whether the expression was compiled case-insensitively.
    pub closed spec fn spec_ci(&self) -> bool {
        self.case_insensitive
    }

    /// Relies on `regex::RegexBuilder::build`: compiles the pattern with the
    /// given case-insensitivity flag, returning `Ok` exactly when the pattern
    /// is a valid regular expression, and recording the inputs it was built
    /// from beside the compiled expression.
    #[verifier::external_body]
    fn build(pattern: &str, case_insensitive: bool) -> (r: Result<Pattern, String>)
        ensures
            r is Ok <==> regex_compiles(pattern@, case_insensitive),
            r matches Ok(p) ==> p.spec_source() == pattern@ && p.spec_ci() == case_insensitive,
    {
        match regex::RegexBuilder::new(pattern).case_insensitive(case_insensitive).build() {
            Ok(re) => Ok(Pattern {
                regex: re,
                source: pattern.to_string(),
                case_insensitive,
            }),
            Err(e) => Err(e.to_string()),
        }
    }

    /// Compiles a pattern. Succeeds exactly when the pattern is a valid
    /// regular expression under the given case-insensitivity flag; the error
    /// carries the compiler's message.
    pub fn compile(pattern: &str, case_insensitive: bool) -> (r: Result<Pattern, String>)
        ensures
            r is Ok <==> regex_compiles(pattern@, case_insensitive),
            r matches Ok(p) ==> p.spec_source() == pattern@ && p.spec_ci() == case_insensitive,
    {
        Pattern::build(pattern, case_insensitive)
    }

    /// Relies on `regex::Regex::is_match`: true exactly when the expression
    /// matches somewhere in the text (a substring search, not a full-text
    /// one). `build` is the only constructor, so the stored expression was
    /// built from `source` with `case_insensitive`.
    #[verifier::external_body]
    fn search(&self, text: &str) -> (r: bool)
        ensures
            r == regex_accepts(self.spec_source(), self.spec_ci(), text@),
    {
        self.regex.is_match(text)
    }

    /// Whether the pattern matches somewhere in the text: a substring
    /// search, not a full-text comparison.
    pub fn is_match(&self, text: &str) -> (r: bool)
        ensures
            r == regex_accepts(self.spec_source(), self.spec_ci(), text@),
    {
        self.search(text)
    }

    /// The pattern text, for callers that report it.
    pub fn source_text(&self) -> (r: &str)
        ensures
            r@ == self.spec_source(),
    {
        self.source.as_str()
    }

    /// The compiled expression, for a presentation sink that highlights
    /// matches itself.
    pub fn regex(&self) -> &regex::Regex {
        &self.regex
    }
}

/// Relies on `regex::escape`: returns the text with all regular-expression
/// meta characters escaped; the result depends on the text alone.
#[verifier::external_body]
pub(crate) fn escape_pattern(text: &str) -> (r: String)
    ensures
        r@ == regex_escaped(text@),
{
    regex::escape(text)
}

} // verus!
