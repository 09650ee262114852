//! What to start for a chosen entry: through a configured terminal, through
//! the first terminal of a fixed list that starts, or through a shell in the
//! entry's working directory. Starting the processes is the caller's part.

use vstd::prelude::*;
use vstd::string::*;
use crate::entry::DesktopEntry;
use crate::plugin::{Config, State};

verus! {

/// One process to start, detached.
#[derive(Clone, Debug, PartialEq)]
pub struct Launch {
    pub program: String,
    pub args: Vec<String>,
    /// Directory to start in; `None` means the caller's current directory.
    pub dir: Option<String>,
}

/// Number of terminal emulators tried when none is configured.
pub open spec fn fallback_count() -> int {
    5
}

/// The `k`-th terminal emulator tried when none is configured.
pub open spec fn fallback_terminal(k: int) -> Seq<char> {
    if k == 0 {
        "alacritty"@
    } else if k == 1 {
        "foot"@
    } else if k == 2 {
        "kitty"@
    } else if k == 3 {
        "wezterm"@
    } else {
        "wterm"@
    }
}

/// `l` runs `command` in terminal `term`: `term -e command`.
pub open spec fn runs_in_terminal(l: Launch, term: Seq<char>, command: Seq<char>) -> bool {
    &&& l.program@ == term
    &&& l.args@.len() == 2
    &&& l.args@[0]@ == "-e"@
    &&& l.args@[1]@ == command
    &&& l.dir is None
}

/// `l` runs `command` through a shell, `sh -c command`, in `dir`.
pub open spec fn runs_in_shell(l: Launch, command: Seq<char>, dir: Option<String>) -> bool {
    &&& l.program@ == "sh"@
    &&& l.args@.len() == 2
    &&& l.args@[0]@ == "-c"@
    &&& l.args@[1]@ == command
    &&& l.dir == dir
}

/// The working directory a non-terminal entry starts in: its own when set
/// and existing, else (`None`) the caller's current directory.
pub open spec fn working_dir(e: DesktopEntry, path_exists: bool) -> Option<String> {
    match e.path {
        Some(p) => if path_exists {
            Some(p)
        } else {
            None
        },
        None => None,
    }
}

/// The catalog holds an entry with id `id`.
pub open spec fn has_id(state: State, id: u64) -> bool {
    exists|i: int| 0 <= i < state.entries@.len() && state.entries@[i].1 == id
}

/// The catalog position of the entry with id `id`, if there is one.
pub fn find_entry(state: &State, id: u64) -> (r: Option<usize>)
    ensures
        r matches Some(i) ==> i < state.entries@.len() && state.entries@[i as int].1 == id,
        r is None <==> !has_id(*state, id),
{
    let mut i: usize = 0;
    while i < state.entries.len()
        invariant
            i <= state.entries@.len(),
            forall|j: int| 0 <= j < i ==> state.entries@[j].1 != id,
        decreases state.entries@.len() - i,
    {
        if state.entries[i].1 == id {
            return Some(i);
        }
        i = i + 1;
    }
    None
}

/// `term -e command`.
fn terminal_launch(term: &str, command: &String) -> (r: Launch)
    ensures
        runs_in_terminal(r, term@, command@),
{
    let mut args: Vec<String> = Vec::new();
    args.push(String::from_str("-e"));
    args.push(command.clone());
    Launch { program: String::from_str(term), args, dir: None }
}

/// The processes to try for `entry`, in order; the caller starts them one
/// after the other until one starts (see `next_attempt`). `path_exists` says
/// whether the entry's working directory exists.
pub fn launch_plan(entry: &DesktopEntry, config: &Config, path_exists: bool) -> (r: Vec<Launch>)
    ensures
        is_plan(*entry, *config, path_exists, r@),
{
    let mut plan: Vec<Launch> = Vec::new();
    if entry.term {
        match &config.terminal {
            Some(term) => {
                plan.push(terminal_launch(term.as_str(), &entry.command));
            },
            None => {
                plan.push(terminal_launch("alacritty", &entry.command));
                plan.push(terminal_launch("foot", &entry.command));
                plan.push(terminal_launch("kitty", &entry.command));
                plan.push(terminal_launch("wezterm", &entry.command));
                plan.push(terminal_launch("wterm", &entry.command));
            },
        }
    } else {
        let dir = match &entry.path {
            Some(p) => if path_exists {
                Some(p.clone())
            } else {
                None
            },
            None => None,
        };
        let mut args: Vec<String> = Vec::new();
        args.push(String::from_str("-c"));
        args.push(entry.command.clone());
        plan.push(Launch { program: String::from_str("sh"), args, dir });
    }
    plan
}

/// Dispatches the entry with id `id`: the processes to try, in order.
pub fn handler(state: &State, id: u64, path_exists: bool) -> (r: Vec<Launch>)
    requires
        has_id(*state, id),
    ensures
        exists|i: int|
            0 <= i < state.entries@.len() && state.entries@[i].1 == id && #[trigger] is_plan(
                state.entries@[i].0,
                state.config,
                path_exists,
                r@,
            ),
{
    let i = match find_entry(state, id) {
        Some(i) => i,
        None => 0,
    };
    launch_plan(&state.entries[i].0, &state.config, path_exists)
}

/// `r` is the plan for `entry`: what `launch_plan` promises.
pub open spec fn is_plan(entry: DesktopEntry, config: Config, path_exists: bool, r: Seq<Launch>) -> bool {
    &&& entry.term && config.terminal is Some ==> r.len() == 1 && runs_in_terminal(
        r[0],
        config.terminal->Some_0@,
        entry.command@,
    )
    &&& entry.term && config.terminal is None ==> r.len() == fallback_count() && forall|k: int|
        0 <= k < r.len() ==> runs_in_terminal(#[trigger] r[k], fallback_terminal(k), entry.command@)
    &&& !entry.term ==> r.len() == 1 && runs_in_shell(r[0], entry.command@, working_dir(entry, path_exists))
}

/// After trying candidate `attempted` of `candidates`: the next one to try,
/// or `None` when that one started or it was the last.
pub fn next_attempt(attempted: usize, started: bool, candidates: usize) -> (r: Option<usize>)
    ensures
        r == if started || attempted as int + 1 >= candidates {
            None::<usize>
        } else {
            Some((attempted + 1) as usize)
        },
{
    if started || attempted >= candidates || candidates - attempted <= 1 {
        None
    } else {
        Some(attempted + 1)
    }
}

} // verus!
