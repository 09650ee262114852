use applications::calc::parse_result;
use applications::desktop::{lookup, parse_desktop_entry};
use applications::fields::split_list;
use applications::text::has_prefix;

const FILE: &str = "[Desktop Entry]\r\nName=Firefox\nComment=Web Browser\nExec=firefox %u\nIcon=firefox\nKeywords=web;internet;\nTerminal=false\nActions=new-window;broken;private\n\n[Desktop Action new-window]\nName=New Window\nExec=firefox --new-window\n\n[Desktop Action broken]\nName=Broken\n\n[Desktop Action private]\nName=Private\nExec=firefox --private\nIcon=private-icon\n";

#[test]
fn parse_result_with_description() {
    let (t, d) = parse_result("3.048 meter (length)".to_string());
    assert_eq!(t, "3.048 meter");
    assert_eq!(d, Some("length".to_string()));
}

#[test]
fn parse_result_without_description() {
    let (t, d) = parse_result("42".to_string());
    assert_eq!(t, "42");
    assert_eq!(d, None);
}

#[test]
fn parse_result_trims_all_closing_parens() {
    let (t, d) = parse_result("a (b (c))".to_string());
    assert_eq!(t, "a");
    assert_eq!(d, Some("b (c".to_string()));
}

#[test]
fn desktop_file_base_entry() {
    let es = parse_desktop_entry(FILE, false);
    assert_eq!(es.len(), 1);
    let e = &es[0];
    assert_eq!(e.name, "Firefox");
    assert_eq!(e.command, "firefox %u");
    assert_eq!(e.desc, Some("Web Browser".to_string()));
    assert_eq!(e.icon, "firefox");
    assert_eq!(e.keywords, vec!["web".to_string(), "internet".to_string()]);
    assert!(!e.term);
    assert_eq!(e.path, None);
}

#[test]
fn desktop_file_actions() {
    let es = parse_desktop_entry(FILE, true);
    assert_eq!(es.len(), 3);
    assert_eq!(es[1].name, "New Window");
    assert_eq!(es[1].command, "firefox --new-window");
    assert_eq!(es[1].icon, "firefox");
    assert_eq!(es[1].desc, Some("Firefox".to_string()));
    assert_eq!(es[2].name, "Private");
    assert_eq!(es[2].icon, "private-icon");
}

#[test]
fn hidden_and_no_display_are_discarded() {
    assert!(parse_desktop_entry("[Desktop Entry]\nName=A\nExec=a\nNoDisplay=true\n", true).is_empty());
    assert!(parse_desktop_entry("[Desktop Entry]\nName=A\nExec=a\nHidden=true\n", true).is_empty());
    assert!(parse_desktop_entry("[Desktop Entry]\nName=A\n", true).is_empty());
    assert_eq!(parse_desktop_entry("[Desktop Entry]\nName=A\nExec=a\nNoDisplay=false\n", true).len(), 1);
}

#[test]
fn keys_outside_main_group_are_ignored() {
    let es = parse_desktop_entry("[Other]\nName=X\nExec=x\n[Desktop Entry]\nName=A\nExec=a\nTerminal=true\nPath=/opt\n", false);
    assert_eq!(es.len(), 1);
    assert_eq!(es[0].name, "A");
    assert!(es[0].term);
    assert_eq!(es[0].path, Some("/opt".to_string()));
}

#[test]
fn lookup_first_value_wins() {
    let lines = vec!["[G]".to_string(), "K=1".to_string(), "K=2".to_string()];
    assert_eq!(lookup(&lines, "G", "K"), Some("1".to_string()));
    assert_eq!(lookup(&lines, "H", "K"), None);
}

#[test]
fn split_list_drops_empty_items() {
    assert_eq!(split_list(";a;;b;", ';'), vec!["a".to_string(), "b".to_string()]);
    assert!(split_list("", ';').is_empty());
}

#[test]
fn prefix_check() {
    assert!(has_prefix("sys:time", "sys:"));
    assert!(!has_prefix("sy", "sys:"));
    assert!(has_prefix("x", ""));
}
