//! Presentation of a unit-calculator answer: the part before the first
//! `" ("` is the title; what follows, without its closing parentheses, is
//! the description.

use vstd::prelude::*;
use vstd::string::*;

verus! {

/// `" ("` starts at position `i` of `s`.
pub open spec fn opens_at(s: Seq<char>, i: int) -> bool {
    0 <= i && i + 1 < s.len() && s[i] == ' ' && s[i + 1] == '('
}

/// `s` without the `)` characters at its end.
pub open spec fn trim_close(s: Seq<char>) -> Seq<char>
    decreases s.len(),
{
    if s.len() > 0 && s.last() == ')' {
        trim_close(s.drop_last())
    } else {
        s
    }
}

/// Splits a calculator answer into title and description: at the first
/// `" ("`, with the closing parentheses taken off the description; without
/// one, the whole answer is the title.
pub fn parse_result(result: String) -> (r: (String, Option<String>))
    ensures
        r.1 is None ==> r.0@ == result@ && forall|i: int| !opens_at(result@, i),
        r.1 matches Some(d) ==> exists|i: int|
            opens_at(result@, i) && (forall|j: int| 0 <= j < i ==> !opens_at(result@, j)) && r.0@
                == result@.subrange(0, i) && d@ == trim_close(result@.subrange(i + 2, result@.len() as int)),
{
    let s = result.as_str();
    let n = s.unicode_len();
    let mut i: usize = 0;
    while i < n
        invariant
            i <= n,
            n == result@.len(),
            s@ == result@,
            forall|j: int| 0 <= j < i ==> !opens_at(result@, j),
        decreases n - i,
    {
        if i + 1 < n && s.get_char(i) == ' ' && s.get_char(i + 1) == '(' {
            let title = String::from_str(s.substring_char(0, i));
            let rest = s.substring_char(i + 2, n);
            let mut end: usize = n - (i + 2);
            assert(rest@.subrange(0, end as int) =~= rest@);
            while end > 0 && rest.get_char(end - 1) == ')'
                invariant
                    i + 2 <= n,
                    n == result@.len(),
                    end <= rest@.len(),
                    rest@ == result@.subrange(i + 2, n as int),
                    trim_close(rest@.subrange(0, end as int)) == trim_close(rest@),
                decreases end,
            {
                assert(rest@.subrange(0, end as int - 1) =~= rest@.subrange(0, end as int).drop_last());
                end = end - 1;
            }
            assert(trim_close(rest@.subrange(0, end as int)) == rest@.subrange(0, end as int));
            let desc = String::from_str(rest.substring_char(0, end));
            assert(opens_at(result@, i as int));
            assert(title@ == result@.subrange(0, i as int));
            assert(desc@ == trim_close(result@.subrange(i + 2, result@.len() as int)));
            return (title, Some(desc));
        }
        i = i + 1;
    }
    assert forall|j: int| !opens_at(result@, j) by {
        if 0 <= j < i {
        }
    }
    (result, None)
}

} // verus!
