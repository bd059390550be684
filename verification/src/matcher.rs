//! Case-insensitive substring matching through an escaped regular
//! expression, compiled once per query value.

use vstd::prelude::*;

verus! {

#[verifier::external_type_specification]
#[verifier::external_body]
pub struct ExRegex(regex::Regex);

/// Whether the case-insensitive pattern `regex::escape(needle)` matches
/// anywhere inside `hay`: the fuzzy text match. The result depends on the
/// two texts alone.
pub uninterp spec fn ci_fuzzy(needle: Seq<char>, hay: Seq<char>) -> bool;

/// Whether the case-insensitive pattern `regex::escape(needle)` compiles
/// within the 1 MiB size cap. The result depends on the text alone.
pub uninterp spec fn fuzzy_compiles(needle: Seq<char>) -> bool;

/// A compiled fuzzy matcher. The pattern it was built from is kept beside
/// the compiled form; `build_matcher` is the only constructor, so the two
/// stay in step.
#[derive(Debug)]
pub struct TextMatcher {
    pattern: String,
    regex: regex::Regex,
}

impl TextMatcher {
    /// The pattern this matcher was built from.
    pub closed spec fn pattern_view(&self) -> Seq<char> {
        self.pattern@
    }

    pub fn pattern(&self) -> (r: &String)
        ensures
            r@ == self.pattern_view(),
    {
        &self.pattern
    }
}

/// Relies on `regex::RegexBuilder::build` over `regex::escape(needle)`, case
/// insensitive with a 1 MiB size cap: succeeds exactly when the escaped
/// pattern compiles under the cap.
#[verifier::external_body]
pub fn build_matcher(needle: &str) -> (r: Option<TextMatcher>)
    ensures
        r is Some == fuzzy_compiles(needle@),
        r matches Some(m) ==> m.pattern_view() == needle@,
{
    let built = regex::RegexBuilder::new(&regex::escape(needle))
        .case_insensitive(true)
        .size_limit(1_048_576)
        .build();
    match built {
        Ok(regex) => Some(TextMatcher { pattern: needle.to_owned(), regex }),
        Err(_) => None,
    }
}

/// Relies on `regex::Regex::is_match`: whether the matcher's pattern occurs
/// in `text`, case-insensitively.
#[verifier::external_body]
pub fn matcher_is_match(m: &TextMatcher, text: &str) -> (r: bool)
    ensures
        r == ci_fuzzy(m.pattern_view(), text@),
{
    m.regex.is_match(text)
}

} // verus!
