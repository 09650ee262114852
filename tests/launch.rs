use applications::entry::DesktopEntry;
use applications::launch::{find_entry, handler, launch_plan, next_attempt, Launch};
use applications::plugin::{init, Config};

fn entry(term: bool, path: Option<&str>) -> DesktopEntry {
    DesktopEntry {
        command: "htop".to_string(),
        path: path.map(|p| p.to_string()),
        name: "Htop".to_string(),
        keywords: vec![],
        desc: None,
        icon: "htop".to_string(),
        term,
        offset: 0,
    }
}

fn config(terminal: Option<&str>) -> Config {
    Config {
        desktop_actions: false,
        max_entries: 5,
        terminal: terminal.map(|t| t.to_string()),
        ignore_prefix: String::new(),
    }
}

#[test]
fn configured_terminal_is_used_once() {
    let plan = launch_plan(&entry(true, None), &config(Some("urxvt")), false);
    assert_eq!(plan.len(), 1);
    assert_eq!(plan[0].program, "urxvt");
    assert_eq!(plan[0].args, vec!["-e".to_string(), "htop".to_string()]);
    assert_eq!(next_attempt(0, false, plan.len()), None);
}

#[test]
fn terminal_fallback_first_success() {
    let plan = launch_plan(&entry(true, None), &config(None), false);
    let names: Vec<&str> = plan.iter().map(|l| l.program.as_str()).collect();
    assert_eq!(names, vec!["alacritty", "foot", "kitty", "wezterm", "wterm"]);
    let mut attempted: Vec<String> = Vec::new();
    let mut i = 0usize;
    loop {
        let l: &Launch = &plan[i];
        attempted.push(l.program.clone());
        let started = l.program == "kitty";
        match next_attempt(i, started, plan.len()) {
            Some(j) => i = j,
            None => break,
        }
    }
    assert_eq!(attempted, vec!["alacritty", "foot", "kitty"]);
}

#[test]
fn terminal_fallback_all_fail() {
    let mut tries = 0;
    let mut i = 0usize;
    loop {
        tries += 1;
        match next_attempt(i, false, 5) {
            Some(j) => i = j,
            None => break,
        }
    }
    assert_eq!(tries, 5);
}

#[test]
fn working_dir_fallback_when_missing() {
    let plan = launch_plan(&entry(false, Some("/nonexistent/path")), &config(None), false);
    assert_eq!(plan.len(), 1);
    assert_eq!(plan[0].program, "sh");
    assert_eq!(plan[0].args, vec!["-c".to_string(), "htop".to_string()]);
    assert_eq!(plan[0].dir, None);
}

#[test]
fn working_dir_used_when_present() {
    let plan = launch_plan(&entry(false, Some("/tmp")), &config(None), true);
    assert_eq!(plan[0].dir, Some("/tmp".to_string()));
    let no_path = launch_plan(&entry(false, None), &config(None), true);
    assert_eq!(no_path[0].dir, None);
}

#[test]
fn handler_finds_entry_by_id() {
    let mut other = entry(true, None);
    other.name = "Top".to_string();
    let state = init(config(None), vec![vec![entry(false, None)], vec![other]]);
    assert_eq!(find_entry(&state, 1), Some(1));
    assert_eq!(find_entry(&state, 7), None);
    let plan = handler(&state, 0, false);
    assert_eq!(plan[0].program, "sh");
}
