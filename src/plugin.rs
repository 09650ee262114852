//! The session state and the operations the host calls: building the
//! state, answering a query, and describing the plugin.

use vstd::prelude::*;
use vstd::string::*;
use crate::catalog::{build_catalog, is_catalog_of};
use crate::desktop::copy_opt;
use crate::entry::DesktopEntry;
use crate::rank::{rank, top_ranking};
use crate::score::{catalog_scores, score_entry};
use crate::text::{has_prefix, starts_with};

verus! {

/// The plugin's options.
#[derive(Clone, Debug, PartialEq)]
pub struct Config {
    /// Whether each declared sub-action of an entry becomes an entry of its own.
    pub desktop_actions: bool,
    /// The most results a query returns.
    pub max_entries: usize,
    /// Terminal emulator to run terminal entries in; `None` tries a fixed list.
    pub terminal: Option<String>,
    /// Queries that begin with this (when it is not empty) get no results.
    pub ignore_prefix: String,
}

impl Default for Config {
    fn default() -> (r: Self)
        ensures
            !r.desktop_actions,
            r.max_entries == 5,
            r.terminal is None,
            r.ignore_prefix@ == Seq::<char>::empty(),
    {
        Config { desktop_actions: false, max_entries: 5, terminal: None, ignore_prefix: String::new() }
    }
}

/// The session: the options and the catalog, each entry with its id.
#[derive(Clone, Debug, PartialEq)]
pub struct State {
    pub config: Config,
    pub entries: Vec<(DesktopEntry, u64)>,
}

/// One result of a query.
#[derive(Clone, Debug, PartialEq)]
pub struct RankedResult {
    pub title: String,
    pub description: Option<String>,
    pub icon: String,
    pub id: u64,
}

/// Name and icon of the plugin.
#[derive(Clone, Debug, PartialEq)]
pub struct PluginInfo {
    pub name: String,
    pub icon: String,
}

/// The result that shows catalog entry `e` with id `id`.
pub open spec fn result_of(e: DesktopEntry, id: u64) -> RankedResult {
    RankedResult { title: e.name, description: e.desc, icon: e.icon, id }
}

/// The query opts out: the ignore prefix is set and the query begins with it.
pub open spec fn is_ignored(ignore_prefix: Seq<char>, query: Seq<char>) -> bool {
    ignore_prefix.len() > 0 && starts_with(query, ignore_prefix)
}

/// The results of `query` against the session: empty when the query is
/// ignored, else the top ranking of the catalog's entries, as results.
pub open spec fn query_results(state: State, query: Seq<char>) -> Seq<RankedResult> {
    if is_ignored(state.config.ignore_prefix@, query) {
        Seq::empty()
    } else {
        let idx = top_ranking(catalog_scores(state.entries@, query), state.config.max_entries as int);
        Seq::new(
            idx.len(),
            |k: int| result_of(state.entries@[idx[k] as int].0, state.entries@[idx[k] as int].1),
        )
    }
}

/// Builds the session from the options and the candidate entries of each
/// source location, highest priority first.
pub fn init(config: Config, sources: Vec<Vec<DesktopEntry>>) -> (r: State)
    requires
        sources.len() <= u64::MAX,
    ensures
        r.config == config,
        is_catalog_of(sources@, r.entries@),
{
    let entries = build_catalog(sources);
    State { config, entries }
}

/// Answers a query: the best matching catalog entries, best first.
pub fn get_matches(input: &str, state: &State) -> (r: Vec<RankedResult>)
    ensures
        r@ == query_results(*state, input@),
        r@.len() <= state.config.max_entries,
        is_ignored(state.config.ignore_prefix@, input@) ==> r@.len() == 0,
        forall|k: int|
            #![trigger r@[k]]
            0 <= k < r@.len() ==> exists|i: int|
                #![trigger state.entries@[i]]
                0 <= i < state.entries@.len() && r@[k] == result_of(
                    state.entries@[i].0,
                    state.entries@[i].1,
                ) && catalog_scores(state.entries@, input@)[i] > 0,
{
    if state.config.ignore_prefix.unicode_len() > 0 && has_prefix(
        input,
        state.config.ignore_prefix.as_str(),
    ) {
        return Vec::new();
    }
    let ghost scores_spec = catalog_scores(state.entries@, input@);
    let mut scores: Vec<i128> = Vec::new();
    let mut i: usize = 0;
    while i < state.entries.len()
        invariant
            i <= state.entries@.len(),
            scores_spec == catalog_scores(state.entries@, input@),
            scores@.len() == i,
            forall|j: int| 0 <= j < i ==> scores@[j] as int == scores_spec[j],
        decreases state.entries@.len() - i,
    {
        let s = score_entry(&state.entries[i].0, input);
        scores.push(s);
        i = i + 1;
    }
    assert(crate::rank::int_scores(scores@) =~= scores_spec);
    let idx = rank(&scores, state.config.max_entries);
    let ghost want = query_results(*state, input@);
    let mut out: Vec<RankedResult> = Vec::new();
    let mut k: usize = 0;
    assert(want.len() == idx@.len());
    while k < idx.len()
        invariant
            k <= idx@.len(),
            idx@ == top_ranking(scores_spec, state.config.max_entries as int),
            crate::rank::all_positive(scores_spec, idx@),
            scores_spec == catalog_scores(state.entries@, input@),
            scores_spec.len() == state.entries@.len(),
            want == query_results(*state, input@),
            !is_ignored(state.config.ignore_prefix@, input@),
            want.len() == idx@.len(),
            out@ == want.subrange(0, k as int),
        decreases idx@.len() - k,
    {
        let (e, id) = &state.entries[idx[k]];
        let res = RankedResult {
            title: e.name.clone(),
            description: copy_opt(&e.desc),
            icon: e.icon.clone(),
            id: *id,
        };
        assert(res == want[k as int]);
        out.push(res);
        k = k + 1;
        assert(out@ =~= want.subrange(0, k as int));
    }
    assert(want.subrange(0, k as int) =~= want);
    assert forall|j: int| #![trigger out@[j]] 0 <= j < out@.len() implies exists|i: int|
        #![trigger state.entries@[i]]
        0 <= i < state.entries@.len() && out@[j] == result_of(state.entries@[i].0, state.entries@[i].1)
            && catalog_scores(state.entries@, input@)[i] > 0 by {
        let i = idx@[j] as int;
        assert(out@[j] == result_of(state.entries@[i].0, state.entries@[i].1));
    }
    out
}

/// The plugin's name and icon.
pub fn info() -> (r: PluginInfo)
    ensures
        r.name@ == "Applications"@,
        r.icon@ == "application-x-executable"@,
{
    PluginInfo {
        name: String::from_str("Applications"),
        icon: String::from_str("application-x-executable"),
    }
}

} // verus!
