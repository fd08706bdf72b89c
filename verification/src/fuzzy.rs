//! Fuzzy filtering through the skim matcher of `fuzzy_matcher`.
use vstd::prelude::*;
use crate::text::spec_ascii_lower;
use fuzzy_matcher::FuzzyMatcher;
use fuzzy_matcher::skim::SkimMatcherV2;

verus! {

/// Character comparison of the matcher: exact, or ignoring ASCII case.
pub open spec fn char_equal(a: char, b: char, case_sensitive: bool) -> bool {
    if case_sensitive {
        a == b
    } else {
        spec_ascii_lower(a) == spec_ascii_lower(b)
    }
}

/// Whether `pattern` occurs in `choice` as a (not necessarily contiguous)
/// subsequence, matched greedily from the left.
pub open spec fn fuzzy_subseq(choice: Seq<char>, pattern: Seq<char>, case_sensitive: bool) -> bool
    decreases choice.len(),
{
    if pattern.len() == 0 {
        true
    } else if choice.len() == 0 {
        false
    } else if char_equal(choice[0], pattern[0], case_sensitive) {
        fuzzy_subseq(choice.drop_first(), pattern.drop_first(), case_sensitive)
    } else {
        fuzzy_subseq(choice.drop_first(), pattern, case_sensitive)
    }
}

/// Smart case: a pattern with an ASCII capital matches case-sensitively.
pub open spec fn has_ascii_upper(pattern: Seq<char>) -> bool {
    exists|i: int| 0 <= i < pattern.len() && 'A' <= #[trigger] pattern[i] && pattern[i] <= 'Z'
}

/// Whether the smart-case skim matcher accepts `text` for `pattern`.
pub open spec fn skim_accepts(text: Seq<char>, pattern: Seq<char>) -> bool {
    fuzzy_subseq(text, pattern, has_ascii_upper(pattern))
}

/// The match positions reported by the skim matcher's scoring pass.
pub uninterp spec fn skim_positions(text: Seq<char>, pattern: Seq<char>) -> Seq<usize>;

/// `SkimMatcherV2::default().smart_case().fuzzy_match(text, pattern).is_some()`:
/// the matcher returns a score exactly when its greedy subsequence pre-check
/// (`cheap_matches`) succeeds, so acceptance is that check.
#[verifier::external_body]
fn skim_fuzzy_match(text: &str, pattern: &str) -> (r: bool)
    ensures
        r == skim_accepts(text@, pattern@),
{
    SkimMatcherV2::default().smart_case().fuzzy_match(text, pattern).is_some()
}

/// `SkimMatcherV2::default().smart_case().fuzzy_indices(text, pattern)`: the
/// character positions of the best-scoring alignment, present exactly when
/// the pattern is accepted.
#[verifier::external_body]
fn skim_fuzzy_indices(text: &str, pattern: &str) -> (r: Option<Vec<usize>>)
    ensures
        r is Some <==> skim_accepts(text@, pattern@),
        r matches Some(v) ==> v@ == skim_positions(text@, pattern@),
{
    match SkimMatcherV2::default().smart_case().fuzzy_indices(text, pattern) {
        Some((_, indices)) => Some(indices),
        None => None,
    }
}

/// Whether `text` passes the fuzzy `filter`; an empty filter passes everything.
pub fn fuzzy_matches(text: &str, filter: &str) -> (r: bool)
    ensures
        r == (filter@.len() == 0 || skim_accepts(text@, filter@)),
{
    filter.is_empty() || skim_fuzzy_match(text, filter)
}

/// The positions of `text` that `filter` matched, for highlighting; empty
/// when the filter is empty or does not match.
pub fn fuzzy_indices(text: &str, filter: &str) -> (r: Vec<usize>)
    ensures
        r@ == if filter@.len() == 0 || !skim_accepts(text@, filter@) {
            Seq::<usize>::empty()
        } else {
            skim_positions(text@, filter@)
        },
{
    if filter.is_empty() {
        return Vec::new();
    }
    match skim_fuzzy_indices(text, filter) {
        Some(indices) => indices,
        None => Vec::new(),
    }
}

} // verus!
