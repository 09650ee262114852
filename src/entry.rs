//! One launchable unit: an application or one of its declared actions.

use vstd::prelude::*;

verus! {

/// A launchable desktop entry as the catalog holds it.
#[derive(Clone, Debug, PartialEq)]
pub struct DesktopEntry {
    /// The command line, run through a shell or a terminal.
    pub command: String,
    /// Working directory to run the command in, if the entry names one.
    pub path: Option<String>,
    /// Display title.
    pub name: String,
    /// Extra search words.
    pub keywords: Vec<String>,
    /// Description shown under the title.
    pub desc: Option<String>,
    /// Icon name.
    pub icon: String,
    /// Whether the command must run inside a terminal emulator.
    pub term: bool,
    /// Ranking penalty: the index of the source location the entry came from.
    pub offset: u64,
}

/// Two entries collapse into one catalog entry: same title and same command.
pub open spec fn same_identity(a: DesktopEntry, b: DesktopEntry) -> bool {
    a.name@ == b.name@ && a.command@ == b.command@
}

/// `e` with its offset replaced by `offset`.
pub open spec fn with_offset(e: DesktopEntry, offset: u64) -> DesktopEntry {
    DesktopEntry { offset, ..e }
}

} // verus!
