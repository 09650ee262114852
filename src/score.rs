//! The aggregate score of a catalog entry against a query.

use vstd::prelude::*;
use crate::entry::DesktopEntry;
use crate::matcher::{fuzzy_score, skim_score};

verus! {

/// What one field contributes before weighting: its match score, or 0
/// without a match.
pub open spec fn opt_score(m: Option<i64>) -> int {
    match m {
        Some(s) => s as int,
        None => 0,
    }
}

/// A match score as the matcher gives it: within the range of `i32`.
pub open spec fn in_matcher_range(m: Option<i64>) -> bool {
    m matches Some(s) ==> i32::MIN <= s <= i32::MAX
}

/// The sum of the keywords' match scores.
pub open spec fn keyword_sum(ks: Seq<Option<i64>>) -> int
    decreases ks.len(),
{
    if ks.len() == 0 {
        0
    } else {
        keyword_sum(ks.drop_last()) + opt_score(ks.last())
    }
}

/// The aggregate score from the fields' match results: 150 times the
/// title's, 50 times the description's, 25 times the command's, plus every
/// keyword's, minus the offset; a field without a match counts 0.
pub open spec fn aggregate(
    name: Option<i64>,
    desc: Option<i64>,
    command: Option<i64>,
    keywords: Seq<Option<i64>>,
    offset: u64,
) -> int {
    150 * opt_score(name) + 50 * opt_score(desc) + 25 * opt_score(command) + keyword_sum(keywords)
        - offset
}

/// The matcher's result for an optional field; no field, no match.
pub open spec fn opt_field_match(f: Option<String>, query: Seq<char>) -> Option<i64> {
    match f {
        Some(d) => skim_score(d@, query),
        None => None,
    }
}

/// The matcher's results for the keywords, in order.
pub open spec fn keyword_matches(keywords: Seq<String>, query: Seq<char>) -> Seq<Option<i64>> {
    Seq::new(keywords.len(), |i: int| skim_score(keywords[i]@, query))
}

/// The aggregate score of entry `e` against `query`.
pub open spec fn entry_score(e: DesktopEntry, query: Seq<char>) -> int {
    aggregate(
        skim_score(e.name@, query),
        opt_field_match(e.desc, query),
        skim_score(e.command@, query),
        keyword_matches(e.keywords@, query),
        e.offset,
    )
}

/// The aggregate scores of the catalog's entries, in catalog order.
pub open spec fn catalog_scores(entries: Seq<(DesktopEntry, u64)>, query: Seq<char>) -> Seq<int> {
    Seq::new(entries.len(), |i: int| entry_score(entries[i].0, query))
}

/// Combines the fields' match results into the aggregate score.
pub fn aggregate_score(
    name: Option<i64>,
    desc: Option<i64>,
    command: Option<i64>,
    keywords: &Vec<Option<i64>>,
    offset: u64,
) -> (r: i128)
    requires
        in_matcher_range(name),
        in_matcher_range(desc),
        in_matcher_range(command),
        forall|i: int| 0 <= i < keywords@.len() ==> in_matcher_range(#[trigger] keywords@[i]),
    ensures
        r == aggregate(name, desc, command, keywords@, offset),
{
    let mut sum: i128 = 0;
    let mut i: usize = 0;
    while i < keywords.len()
        invariant
            i <= keywords@.len(),
            forall|j: int| 0 <= j < keywords@.len() ==> in_matcher_range(#[trigger] keywords@[j]),
            sum == keyword_sum(keywords@.subrange(0, i as int)),
            -(i * 2147483648) <= sum <= i * 2147483648,
        decreases keywords@.len() - i,
    {
        assert(keywords@.subrange(0, i as int + 1).drop_last() =~= keywords@.subrange(0, i as int));
        assert(in_matcher_range(keywords@[i as int]));
        let k: i128 = match keywords[i] {
            Some(s) => s as i128,
            None => 0,
        };
        sum = sum + k;
        i = i + 1;
    }
    assert(keywords@.subrange(0, i as int) =~= keywords@);
    let n: i128 = match name {
        Some(s) => s as i128,
        None => 0,
    };
    let d: i128 = match desc {
        Some(s) => s as i128,
        None => 0,
    };
    let c: i128 = match command {
        Some(s) => s as i128,
        None => 0,
    };
    150 * n + 50 * d + 25 * c + sum - (offset as i128)
}

/// The aggregate score of `e` against `query`.
pub fn score_entry(e: &DesktopEntry, query: &str) -> (r: i128)
    ensures
        r == entry_score(*e, query@),
{
    let name = fuzzy_score(e.name.as_str(), query);
    let desc = match &e.desc {
        Some(d) => fuzzy_score(d.as_str(), query),
        None => None,
    };
    let command = fuzzy_score(e.command.as_str(), query);
    let mut keywords: Vec<Option<i64>> = Vec::new();
    let mut i: usize = 0;
    while i < e.keywords.len()
        invariant
            i <= e.keywords@.len(),
            keywords@ == keyword_matches(e.keywords@, query@).subrange(0, i as int),
            forall|j: int| 0 <= j < keywords@.len() ==> in_matcher_range(#[trigger] keywords@[j]),
        decreases e.keywords@.len() - i,
    {
        let m = fuzzy_score(e.keywords[i].as_str(), query);
        keywords.push(m);
        i = i + 1;
        assert(keywords@ =~= keyword_matches(e.keywords@, query@).subrange(0, i as int));
    }
    assert(keywords@ =~= keyword_matches(e.keywords@, query@));
    aggregate_score(name, desc, command, &keywords, e.offset)
}

} // verus!
