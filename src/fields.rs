//! Splitting text into lines and lists, stated over characters.

use vstd::prelude::*;
use vstd::string::*;

verus! {

/// Position of the first `c` in `s`.
pub open spec fn index_of(s: Seq<char>, c: char) -> Option<int>
    decreases s.len(),
{
    if s.len() == 0 {
        None
    } else if s[0] == c {
        Some(0)
    } else {
        match index_of(s.drop_first(), c) {
            Some(i) => Some(i + 1),
            None => None,
        }
    }
}

/// The pieces of `s` between occurrences of `sep`, empty ones included.
pub open spec fn pieces(s: Seq<char>, sep: char) -> Seq<Seq<char>>
    decreases s.len(),
{
    match index_of(s, sep) {
        Some(i) => if 0 <= i < s.len() {
            seq![s.subrange(0, i)] + pieces(s.subrange(i + 1, s.len() as int), sep)
        } else {
            seq![s]
        },
        None => seq![s],
    }
}

/// The non-empty pieces of `s` between occurrences of `sep`.
pub open spec fn list_items(s: Seq<char>, sep: char) -> Seq<Seq<char>>
    decreases s.len(),
{
    match index_of(s, sep) {
        Some(i) => if 0 <= i < s.len() {
            (if i > 0 {
                seq![s.subrange(0, i)]
            } else {
                Seq::empty()
            }) + list_items(s.subrange(i + 1, s.len() as int), sep)
        } else {
            seq![s]
        },
        None => if s.len() > 0 {
            seq![s]
        } else {
            Seq::empty()
        },
    }
}

/// `l` without one `'\r'` at its end.
pub open spec fn strip_cr(l: Seq<char>) -> Seq<char> {
    if l.len() > 0 && l.last() == '\r' {
        l.drop_last()
    } else {
        l
    }
}

/// The lines of `s`: split at `'\n'`, a `'\r'` before the `'\n'` removed,
/// no line after a final `'\n'`.
pub open spec fn text_lines(s: Seq<char>) -> Seq<Seq<char>> {
    let ps = pieces(s, '\n');
    let n = ps.len() - 1;
    Seq::new(n as nat, |k: int| strip_cr(ps[k])) + (if ps[n].len() > 0 {
        seq![ps[n]]
    } else {
        Seq::empty()
    })
}

/// Relies on std's `str::lines`: lines end at `"\n"` or `"\r\n"`, the
/// terminator is not part of the line, and the final terminator is optional.
#[verifier::external_body]
pub(crate) fn split_lines(s: &str) -> (r: Vec<String>)
    ensures
        r@.map_values(|l: String| l@) == text_lines(s@),
{
    s.lines().map(|l| l.to_string()).collect()
}

proof fn lemma_index_found(s: Seq<char>, c: char, k: int)
    requires
        0 <= k < s.len(),
        s[k] == c,
        forall|j: int| 0 <= j < k ==> s[j] != c,
    ensures
        index_of(s, c) == Some(k),
    decreases k,
{
    if k > 0 {
        lemma_index_found(s.drop_first(), c, k - 1);
    }
}

proof fn lemma_index_none(s: Seq<char>, c: char)
    requires
        forall|j: int| 0 <= j < s.len() ==> s[j] != c,
    ensures
        index_of(s, c) is None,
    decreases s.len(),
{
    if s.len() > 0 {
        lemma_index_none(s.drop_first(), c);
    }
}

/// The non-empty pieces of `s` between occurrences of `sep`, in order.
pub fn split_list(s: &str, sep: char) -> (r: Vec<String>)
    ensures
        r@.map_values(|l: String| l@) == list_items(s@, sep),
{
    let n = s.unicode_len();
    let mut out: Vec<String> = Vec::new();
    let mut start: usize = 0;
    let mut j: usize = 0;
    assert(s@.subrange(0, n as int) =~= s@);
    assert(out@.map_values(|l: String| l@) =~= Seq::<Seq<char>>::empty());
    while j < n
        invariant
            n == s@.len(),
            start <= j <= n,
            forall|k: int| start <= k < j ==> s@[k] != sep,
            list_items(s@, sep) == out@.map_values(|l: String| l@) + list_items(
                s@.subrange(start as int, n as int),
                sep,
            ),
        decreases n - j,
    {
        if s.get_char(j) == sep {
            let ghost rest = s@.subrange(start as int, n as int);
            proof {
                lemma_index_found(rest, sep, j - start);
                assert(rest.subrange(0, j - start) =~= s@.subrange(start as int, j as int));
                assert(rest.subrange(j - start + 1, rest.len() as int) =~= s@.subrange(
                    j + 1,
                    n as int,
                ));
            }
            if j > start {
                let piece = String::from_str(s.substring_char(start, j));
                out.push(piece);
            }
            assert(list_items(s@, sep) == out@.map_values(|l: String| l@) + list_items(
                s@.subrange(j + 1, n as int),
                sep,
            ));
            start = j + 1;
        }
        j = j + 1;
    }
    let ghost rest = s@.subrange(start as int, n as int);
    proof {
        lemma_index_none(rest, sep);
    }
    if start < n {
        let piece = String::from_str(s.substring_char(start, n));
        out.push(piece);
    }
    assert(list_items(s@, sep) =~= out@.map_values(|l: String| l@));
    out
}

} // verus!
