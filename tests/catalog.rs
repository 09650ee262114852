use applications::catalog::{build_catalog, dedup_entries, flatten_sources};
use applications::entry::DesktopEntry;

fn entry(name: &str, exec: &str, icon: &str) -> DesktopEntry {
    DesktopEntry {
        command: exec.to_string(),
        path: None,
        name: name.to_string(),
        keywords: vec![],
        desc: None,
        icon: icon.to_string(),
        term: false,
        offset: 0,
    }
}

#[test]
fn duplicate_keeps_lowest_offset() {
    let cat = build_catalog(vec![
        vec![entry("Editor", "edit", "user-icon")],
        vec![entry("Editor", "edit", "system-icon"), entry("Other", "other", "o")],
    ]);
    assert_eq!(cat.len(), 2);
    assert_eq!(cat[0].0.icon, "user-icon");
    assert_eq!(cat[0].0.offset, 0);
    assert_eq!(cat[0].1, 0);
    assert_eq!(cat[1].0.name, "Other");
    assert_eq!(cat[1].1, 1);
}

#[test]
fn same_name_different_command_both_kept() {
    let cat = build_catalog(vec![vec![entry("Editor", "edit", "a"), entry("Editor", "edit2", "b")]]);
    assert_eq!(cat.len(), 2);
}

#[test]
fn flatten_stamps_source_index() {
    let flat = flatten_sources(vec![vec![], vec![entry("A", "a", "")], vec![entry("B", "b", ""), entry("C", "c", "")]]);
    let offs: Vec<u64> = flat.iter().map(|e| e.offset).collect();
    assert_eq!(offs, vec![1, 2, 2]);
}

#[test]
fn dedup_first_seen_wins_within_source() {
    let kept = dedup_entries(vec![entry("A", "a", "first"), entry("A", "a", "second"), entry("B", "b", "")]);
    assert_eq!(kept.len(), 2);
    assert_eq!(kept[0].0.icon, "first");
    assert_eq!(kept[1].1, 1);
}

#[test]
fn empty_sources_give_empty_catalog() {
    assert!(build_catalog(vec![]).is_empty());
    assert!(build_catalog(vec![vec![], vec![]]).is_empty());
}
