//! Fuzzy matching of a query against a description. The matching itself is
//! the skim algorithm of the `fuzzy_matcher` crate, told to respect case.

use fuzzy_matcher::skim::SkimMatcherV2;
use fuzzy_matcher::FuzzyMatcher;
use vstd::prelude::*;

verus! {

/// `positions` places the characters of `query` in `text`: one position per
/// character, strictly increasing, each holding that character.
pub open spec fn is_embedding(positions: Seq<int>, query: Seq<char>, text: Seq<char>) -> bool {
    &&& positions.len() == query.len()
    &&& forall|i: int|
        0 <= i < positions.len() ==> 0 <= #[trigger] positions[i] < text.len() && text[positions[i]]
            == query[i]
    &&& forall|i: int, j: int|
        0 <= i < j < positions.len() ==> #[trigger] positions[i] < #[trigger] positions[j]
}

/// The characters of `query` occur in `text` in the same order, not
/// necessarily next to each other.
pub open spec fn occurs_in_order(query: Seq<char>, text: Seq<char>) -> bool {
    exists|positions: Seq<int>| is_embedding(positions, query, text)
}

/// Calls `SkimMatcherV2::fuzzy_match` on a matcher with the default scoring
/// that respects case.
///
/// Trusted: a score comes back exactly when the characters of `pattern`
/// occur in `choice` in order. Nothing is claimed of the score itself.
#[verifier::external_body]
pub(crate) fn fuzzy_score(choice: &str, pattern: &str) -> (score: Option<i64>)
    ensures
        score is Some <==> occurs_in_order(pattern@, choice@),
{
    SkimMatcherV2::default().respect_case().fuzzy_match(choice, pattern)
}

/// Whether `query` is a fuzzy match for `description`.
pub fn is_match(description: &str, query: &str) -> (matched: bool)
    ensures
        matched == occurs_in_order(query@, description@),
{
    match fuzzy_score(description, query) {
        Some(_) => true,
        None => false,
    }
}

} // verus!
