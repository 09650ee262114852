//! The fuzzy matching primitive, provided by the `fuzzy-matcher` crate.

use vstd::prelude::*;
use fuzzy_matcher::FuzzyMatcher;

verus! {

/// The score that the smart-case skim matcher (version 2) gives `choice`
/// against `pattern`, or `None` when `pattern` does not match.
pub uninterp spec fn skim_score(choice: Seq<char>, pattern: Seq<char>) -> Option<i64>;

/// Relies on fuzzy_matcher's `SkimMatcherV2::default().smart_case()` and its
/// `fuzzy_match`: the outcome depends on the two strings alone, and every
/// score it returns is an `i32` value widened to `i64`.
#[verifier::external_body]
pub(crate) fn fuzzy_score(choice: &str, pattern: &str) -> (r: Option<i64>)
    ensures
        r == skim_score(choice@, pattern@),
        r matches Some(s) ==> i32::MIN <= s <= i32::MAX,
{
    fuzzy_matcher::skim::SkimMatcherV2::default().smart_case().fuzzy_match(choice, pattern)
}

} // verus!
