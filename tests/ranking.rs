use applications::catalog::build_catalog;
use applications::entry::DesktopEntry;
use applications::plugin::{get_matches, info, init, Config, RankedResult};
use applications::rank::rank;
use applications::score::{aggregate_score, score_entry};

fn entry(name: &str, desc: Option<&str>, exec: &str, keywords: &[&str]) -> DesktopEntry {
    DesktopEntry {
        command: exec.to_string(),
        path: None,
        name: name.to_string(),
        keywords: keywords.iter().map(|k| k.to_string()).collect(),
        desc: desc.map(|d| d.to_string()),
        icon: format!("{}-icon", exec),
        term: false,
        offset: 0,
    }
}

fn config(max_entries: usize, ignore_prefix: &str) -> Config {
    Config {
        desktop_actions: false,
        max_entries,
        terminal: None,
        ignore_prefix: ignore_prefix.to_string(),
    }
}

fn firefox() -> DesktopEntry {
    entry("Firefox", Some("Web Browser"), "firefox", &["web", "internet"])
}

#[test]
fn rank_orders_by_score_and_keeps_ties_in_catalog_order() {
    let scores: Vec<i128> = vec![5, 0, 7, 5, -1, 7];
    assert_eq!(rank(&scores, 10), vec![2, 5, 0, 3]);
}

#[test]
fn rank_caps_at_max_entries() {
    let scores: Vec<i128> = vec![5, 0, 7, 5, -1, 7];
    assert_eq!(rank(&scores, 2), vec![2, 5]);
    assert_eq!(rank(&scores, 0), Vec::<usize>::new());
}

#[test]
fn rank_excludes_zero_and_negative_scores() {
    let scores: Vec<i128> = vec![0, -3, 0];
    assert!(rank(&scores, 5).is_empty());
    assert!(rank(&Vec::new(), 5).is_empty());
}

#[test]
fn scoring_example_firefox_first() {
    let state = init(config(5, ""), vec![vec![firefox(), entry("Terminal", None, "xterm", &[])]]);
    let r = get_matches("fire", &state);
    assert!(!r.is_empty());
    assert_eq!(r[0].title, "Firefox");
    assert_eq!(r[0].description, Some("Web Browser".to_string()));
    assert_eq!(r[0].icon, "firefox-icon");
    assert_eq!(r[0].id, 0);
    assert!(score_entry(&state.entries[0].0, "fire") > 0);
}

#[test]
fn score_weights_fields() {
    let only_name = entry("Firefox", None, "zzz", &[]);
    let s = score_entry(&only_name, "fire");
    assert!(s > 0);
    assert_eq!(s % 150, 0);
    let mut penalised = only_name.clone();
    penalised.offset = 3;
    assert_eq!(score_entry(&penalised, "fire"), s - 3);
    let none = entry("Abc", None, "abc", &[]);
    assert_eq!(score_entry(&none, "xyz"), 0);
}

#[test]
fn offset_alone_makes_score_non_positive() {
    let mut e = entry("Abc", None, "abc", &[]);
    e.offset = 0;
    let state = init(config(5, ""), vec![vec![], vec![e]]);
    assert_eq!(state.entries[0].0.offset, 1);
    assert!(get_matches("xyz", &state).is_empty());
}

#[test]
fn results_never_exceed_max_entries() {
    let sources = vec![vec![
        entry("Files", None, "files", &[]),
        entry("Firefox", None, "firefox", &[]),
        entry("Fish", None, "fish", &[]),
        entry("Finder", None, "finder", &[]),
    ]];
    let state = init(config(2, ""), sources.clone());
    assert_eq!(get_matches("fi", &state).len(), 2);
    let all = init(config(10, ""), sources);
    assert_eq!(get_matches("fi", &all).len(), 4);
}

#[test]
fn ignore_prefix_short_circuits() {
    let state = init(config(5, "sys:"), vec![vec![firefox(), entry("sys time", None, "systime", &[])]]);
    assert!(get_matches("sys:time", &state).is_empty());
    assert!(!get_matches("fire", &state).is_empty());
}

#[test]
fn empty_ignore_prefix_ignores_nothing() {
    let state = init(config(5, ""), vec![vec![firefox()]]);
    assert_eq!(get_matches("fire", &state).len(), 1);
}

#[test]
fn ranking_is_deterministic_with_ties() {
    let sources = vec![vec![
        entry("Alpha", None, "same", &[]),
        entry("Beta", None, "same", &[]),
        entry("Gamma", None, "same", &[]),
    ]];
    let state = init(config(5, ""), sources);
    let first: Vec<RankedResult> = get_matches("same", &state);
    let second = get_matches("same", &state);
    assert_eq!(first, second);
    let ids: Vec<u64> = first.iter().map(|r| r.id).collect();
    assert_eq!(ids, vec![0, 1, 2]);
}

#[test]
fn query_leaves_catalog_unchanged() {
    let state = init(config(5, ""), vec![vec![firefox(), entry("Files", None, "files", &[])]]);
    let before = state.entries.clone();
    let _ = get_matches("fi", &state);
    let _ = get_matches("fire", &state);
    assert_eq!(state.entries, before);
}

#[test]
fn smart_case_query_is_case_sensitive() {
    let state = init(config(5, ""), vec![vec![entry("firefox", None, "zzz", &[])]]);
    assert_eq!(get_matches("fire", &state).len(), 1);
    assert!(get_matches("FIRE", &state).is_empty());
}

#[test]
fn default_config() {
    let c = Config::default();
    assert!(!c.desktop_actions);
    assert_eq!(c.max_entries, 5);
    assert_eq!(c.terminal, None);
    assert_eq!(c.ignore_prefix, "");
}

#[test]
fn plugin_info() {
    let i = info();
    assert_eq!(i.name, "Applications");
    assert_eq!(i.icon, "application-x-executable");
}

#[test]
fn catalog_numbers_entries() {
    let cat = build_catalog(vec![vec![firefox()], vec![entry("Files", None, "files", &[])]]);
    assert_eq!(cat.len(), 2);
    assert_eq!(cat[0].1, 0);
    assert_eq!(cat[1].1, 1);
    assert_eq!(cat[1].0.offset, 1);
}

#[test]
fn aggregate_formula_exact() {
    assert_eq!(aggregate_score(Some(10), Some(2), None, &vec![Some(1), None, Some(4)], 3), 1602);
    assert_eq!(aggregate_score(None, None, None, &vec![], 7), -7);
    assert_eq!(aggregate_score(Some(-2), None, Some(1), &vec![], 0), -275);
}
