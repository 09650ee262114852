//! Reading a desktop entry file: `[Group]` headers and `Key=Value` lines.
//! A file gives its application, unless it is hidden, not for display, or
//! lacks a title or a command, and, when sub-actions are enabled, one entry
//! per declared action that has a title and a command.

use vstd::prelude::*;
use vstd::string::*;
use crate::entry::DesktopEntry;
use crate::fields::{list_items, split_lines, split_list, text_lines};

verus! {

/// The group name of a `[Group]` header line.
pub open spec fn header(l: Seq<char>) -> Option<Seq<char>> {
    if l.len() >= 2 && l[0] == '[' && l.last() == ']' {
        Some(l.subrange(1, l.len() - 1))
    } else {
        None
    }
}

/// The value of line `key=value`, for the given key.
pub open spec fn key_value(l: Seq<char>, key: Seq<char>) -> Option<Seq<char>> {
    if key.len() < l.len() && l.subrange(0, key.len() as int) == key && l[key.len() as int] == '=' {
        Some(l.subrange(key.len() as int + 1, l.len() as int))
    } else {
        None
    }
}

/// The first value of `key` in `group`, reading `ls` from its start;
/// `in_group` says whether the lines before `ls` left us inside `group`.
pub open spec fn find_value(ls: Seq<Seq<char>>, in_group: bool, group: Seq<char>, key: Seq<char>) -> Option<Seq<char>>
    decreases ls.len(),
{
    if ls.len() == 0 {
        None
    } else {
        match header(ls[0]) {
            Some(g) => find_value(ls.drop_first(), g == group, group, key),
            None => if in_group && key_value(ls[0], key) is Some {
                key_value(ls[0], key)
            } else {
                find_value(ls.drop_first(), in_group, group, key)
            },
        }
    }
}

/// The first value of `key` in group `group` of the file's lines.
pub open spec fn value_of(ls: Seq<Seq<char>>, group: Seq<char>, key: Seq<char>) -> Option<Seq<char>> {
    find_value(ls, false, group, key)
}

/// The characters of an optional string.
pub open spec fn opt_view(o: Option<String>) -> Option<Seq<char>> {
    match o {
        Some(s) => Some(s@),
        None => None,
    }
}

/// `o`'s value, or the empty sequence.
pub open spec fn or_empty(o: Option<Seq<char>>) -> Seq<char> {
    match o {
        Some(s) => s,
        None => Seq::empty(),
    }
}

/// A value of `key` in the main group.
pub open spec fn main_value(ls: Seq<Seq<char>>, key: Seq<char>) -> Option<Seq<char>> {
    value_of(ls, "Desktop Entry"@, key)
}

/// The group of action `id`.
pub open spec fn action_group(id: Seq<char>) -> Seq<char> {
    "Desktop Action "@ + id
}

/// The file gives an application entry.
pub open spec fn is_shown(ls: Seq<Seq<char>>) -> bool {
    &&& main_value(ls, "NoDisplay"@) != Some("true"@)
    &&& main_value(ls, "Hidden"@) != Some("true"@)
    &&& main_value(ls, "Name"@) is Some
    &&& main_value(ls, "Exec"@) is Some
}

/// `e` is the application entry of the file.
pub open spec fn is_base_entry(ls: Seq<Seq<char>>, e: DesktopEntry) -> bool {
    &&& Some(e.name@) == main_value(ls, "Name"@)
    &&& Some(e.command@) == main_value(ls, "Exec"@)
    &&& opt_view(e.desc) == main_value(ls, "Comment"@)
    &&& e.icon@ == or_empty(main_value(ls, "Icon"@))
    &&& e.keywords@.map_values(|k: String| k@) == list_items(or_empty(main_value(ls, "Keywords"@)), ';')
    &&& e.term == (main_value(ls, "Terminal"@) == Some("true"@))
    &&& opt_view(e.path) == main_value(ls, "Path"@)
    &&& e.offset == 0
}

/// Action `id` is declared with a title and a command.
pub open spec fn has_action(ls: Seq<Seq<char>>, id: Seq<char>) -> bool {
    value_of(ls, action_group(id), "Name"@) is Some && value_of(ls, action_group(id), "Exec"@) is Some
}

/// `e` is the entry of action `id` of application `base`: the action's
/// title, command and icon (the application's icon if it has none), the
/// application's title as description, its terminal flag and directory.
pub open spec fn is_action_entry(ls: Seq<Seq<char>>, id: Seq<char>, base: DesktopEntry, e: DesktopEntry) -> bool {
    &&& Some(e.name@) == value_of(ls, action_group(id), "Name"@)
    &&& Some(e.command@) == value_of(ls, action_group(id), "Exec"@)
    &&& opt_view(e.desc) == Some(base.name@)
    &&& e.icon@ == match value_of(ls, action_group(id), "Icon"@) {
        Some(i) => i,
        None => base.icon@,
    }
    &&& e.keywords@.len() == 0
    &&& e.term == base.term
    &&& e.path == base.path
    &&& e.offset == 0
}

/// `r` holds, in order, the entries of those actions among `ids` that are
/// declared with a title and a command.
pub open spec fn actions_match(ls: Seq<Seq<char>>, ids: Seq<Seq<char>>, base: DesktopEntry, r: Seq<DesktopEntry>) -> bool
    decreases ids.len(),
{
    if ids.len() == 0 {
        r.len() == 0
    } else if has_action(ls, ids[0]) {
        r.len() > 0 && is_action_entry(ls, ids[0], base, r[0]) && actions_match(
            ls,
            ids.drop_first(),
            base,
            r.drop_first(),
        )
    } else {
        actions_match(ls, ids.drop_first(), base, r)
    }
}

/// `r` is what the file with lines `ls` gives.
pub open spec fn entries_of(ls: Seq<Seq<char>>, desktop_actions: bool, r: Seq<DesktopEntry>) -> bool {
    if !is_shown(ls) {
        r.len() == 0
    } else {
        &&& r.len() > 0
        &&& is_base_entry(ls, r[0])
        &&& if desktop_actions {
            actions_match(
                ls,
                list_items(or_empty(main_value(ls, "Actions"@)), ';'),
                r[0],
                r.drop_first(),
            )
        } else {
            r.len() == 1
        }
    }
}

/// Whether two strings hold the same characters.
fn text_eq(a: &str, b: &str) -> (r: bool)
    ensures
        r == (a@ == b@),
{
    let n = a.unicode_len();
    if n != b.unicode_len() {
        return false;
    }
    let mut i: usize = 0;
    while i < n
        invariant
            n == a@.len(),
            n == b@.len(),
            i <= n,
            forall|j: int| 0 <= j < i ==> a@[j] == b@[j],
        decreases n - i,
    {
        if a.get_char(i) != b.get_char(i) {
            return false;
        }
        i = i + 1;
    }
    assert(a@ =~= b@);
    true
}

/// The group name of a header line.
fn header_of(l: &str) -> (r: Option<String>)
    ensures
        opt_view(r) == header(l@),
{
    let n = l.unicode_len();
    if n >= 2 && l.get_char(0) == '[' && l.get_char(n - 1) == ']' {
        Some(String::from_str(l.substring_char(1, n - 1)))
    } else {
        None
    }
}

/// The value of a `key=value` line for `key`.
fn value_for(l: &str, key: &str) -> (r: Option<String>)
    ensures
        opt_view(r) == key_value(l@, key@),
{
    let n = l.unicode_len();
    let k = key.unicode_len();
    if k >= n {
        return None;
    }
    let mut i: usize = 0;
    while i < k
        invariant
            k == key@.len(),
            n == l@.len(),
            k < n,
            i <= k,
            forall|j: int| 0 <= j < i ==> l@[j] == key@[j],
        decreases k - i,
    {
        if l.get_char(i) != key.get_char(i) {
            assert(l@.subrange(0, k as int)[i as int] != key@[i as int]);
            return None;
        }
        i = i + 1;
    }
    assert(l@.subrange(0, k as int) =~= key@);
    if l.get_char(k) == '=' {
        Some(String::from_str(l.substring_char(k + 1, n)))
    } else {
        None
    }
}

/// The first value of `key` in group `group`.
pub fn lookup(lines: &Vec<String>, group: &str, key: &str) -> (r: Option<String>)
    ensures
        opt_view(r) == value_of(lines@.map_values(|l: String| l@), group@, key@),
{
    let ghost ls = lines@.map_values(|l: String| l@);
    let mut in_group = false;
    let mut i: usize = 0;
    assert(ls.subrange(0, ls.len() as int) =~= ls);
    while i < lines.len()
        invariant
            ls == lines@.map_values(|l: String| l@),
            i <= ls.len(),
            value_of(ls, group@, key@) == find_value(
                ls.subrange(i as int, ls.len() as int),
                in_group,
                group@,
                key@,
            ),
        decreases ls.len() - i,
    {
        let ghost rest = ls.subrange(i as int, ls.len() as int);
        assert(rest.drop_first() =~= ls.subrange(i + 1, ls.len() as int));
        assert(rest[0] == lines@[i as int]@);
        match header_of(lines[i].as_str()) {
            Some(g) => {
                in_group = text_eq(g.as_str(), group);
            },
            None => {
                if in_group {
                    let v = value_for(lines[i].as_str(), key);
                    if v.is_some() {
                        return v;
                    }
                }
            },
        }
        i = i + 1;
    }
    None
}

/// Copies an optional string.
pub(crate) fn copy_opt(s: &Option<String>) -> (r: Option<String>)
    ensures
        r == *s,
{
    match s {
        Some(d) => Some(d.clone()),
        None => None,
    }
}

/// Whether the optional value is `true`.
fn is_true(v: &Option<String>) -> (r: bool)
    ensures
        r == (opt_view(*v) == Some("true"@)),
{
    match v {
        Some(s) => text_eq(s.as_str(), "true"),
        None => false,
    }
}

/// The characters of an optional value, or an empty string.
fn value_or_empty(v: Option<String>) -> (r: String)
    ensures
        r@ == or_empty(opt_view(v)),
{
    match v {
        Some(s) => s,
        None => String::new(),
    }
}

/// The entries that a desktop entry file gives, in order: its application,
/// then (with `desktop_actions`) one per usable declared action. Offsets are
/// 0; the catalog stamps them.
pub fn parse_desktop_entry(content: &str, desktop_actions: bool) -> (r: Vec<DesktopEntry>)
    ensures
        entries_of(text_lines(content@), desktop_actions, r@),
{
    let lines = split_lines(content);
    let ghost ls = lines@.map_values(|l: String| l@);
    let main = "Desktop Entry";
    if is_true(&lookup(&lines, main, "NoDisplay")) || is_true(&lookup(&lines, main, "Hidden")) {
        return Vec::new();
    }
    let name = match lookup(&lines, main, "Name") {
        Some(n) => n,
        None => {
            return Vec::new();
        },
    };
    let command = match lookup(&lines, main, "Exec") {
        Some(c) => c,
        None => {
            return Vec::new();
        },
    };
    let desc = lookup(&lines, main, "Comment");
    let icon = value_or_empty(lookup(&lines, main, "Icon"));
    let keyword_text = value_or_empty(lookup(&lines, main, "Keywords"));
    let keywords = split_list(keyword_text.as_str(), ';');
    let term = is_true(&lookup(&lines, main, "Terminal"));
    let path = lookup(&lines, main, "Path");
    let base = DesktopEntry { command, path, name, keywords, desc, icon, term, offset: 0 };
    let mut out: Vec<DesktopEntry> = Vec::new();
    if !desktop_actions {
        out.push(base);
        return out;
    }
    let action_text = value_or_empty(lookup(&lines, main, "Actions"));
    let ids = split_list(action_text.as_str(), ';');
    let ghost idv = ids@.map_values(|l: String| l@);
    let mut acts: Vec<DesktopEntry> = Vec::new();
    let mut j: usize = ids.len();
    assert(idv.subrange(j as int, idv.len() as int) =~= Seq::<Seq<char>>::empty());
    while j > 0
        invariant
            j <= idv.len(),
            idv == ids@.map_values(|l: String| l@),
            ls == lines@.map_values(|l: String| l@),
            actions_match(ls, idv.subrange(j as int, idv.len() as int), base, acts@),
        decreases j,
    {
        j = j - 1;
        let ghost ids_here = idv.subrange(j as int, idv.len() as int);
        assert(ids_here.drop_first() =~= idv.subrange(j + 1, idv.len() as int));
        assert(ids_here[0] == ids@[j as int]@);
        let mut group = String::from_str("Desktop Action ");
        group.append(ids[j].as_str());
        let action_name = lookup(&lines, group.as_str(), "Name");
        let action_exec = lookup(&lines, group.as_str(), "Exec");
        match (action_name, action_exec) {
            (Some(an), Some(ae)) => {
                let action_icon = match lookup(&lines, group.as_str(), "Icon") {
                    Some(i) => i,
                    None => base.icon.clone(),
                };
                let e = DesktopEntry {
                    command: ae,
                    path: copy_opt(&base.path),
                    name: an,
                    keywords: Vec::new(),
                    desc: Some(base.name.clone()),
                    icon: action_icon,
                    term: base.term,
                    offset: 0,
                };
                let ghost before = acts@;
                acts.insert(0, e);
                assert(acts@.drop_first() =~= before);
            },
            _ => {},
        }
    }
    assert(idv.subrange(0, idv.len() as int) =~= idv);
    assert(is_base_entry(ls, base));
    let ghost acts_v = acts@;
    out.push(base);
    out.append(&mut acts);
    assert(out@.drop_first() =~= acts_v);
    out
}

} // verus!
