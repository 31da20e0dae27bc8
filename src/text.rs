//! Small operations on text.
use vstd::prelude::*;
use vstd::string::*;

verus! {

/// Whether two texts are equal.
pub fn str_eq(a: &str, b: &str) -> (r: bool)
    ensures
        r == (a@ == b@),
{
    let n = a.unicode_len();
    if n != b.unicode_len() {
        return false;
    }
    let mut i: usize = 0;
    while i < n
        invariant
            i <= n,
            n == a@.len(),
            n == b@.len(),
            forall|j: int| 0 <= j < i ==> a@[j] == b@[j],
        decreases n - i,
    {
        if a.get_char(i) != b.get_char(i) {
            return false;
        }
        i = i + 1;
    }
    assert(a@ =~= b@);
    true
}

/// Whether a text ends with `/`.
pub open spec fn ends_with_slash(s: Seq<char>) -> bool {
    s.len() > 0 && s.last() == '/'
}

/// The index just after the last `/` of a text; 0 if it has none.
pub open spec fn after_last_slash(s: Seq<char>) -> int
    decreases s.len(),
{
    if s.len() == 0 {
        0
    } else if s.last() == '/' {
        s.len() as int
    } else {
        after_last_slash(s.drop_last())
    }
}

/// What follows the last `/` of a path; all of it if it has none.
pub open spec fn last_component(s: Seq<char>) -> Seq<char> {
    s.subrange(after_last_slash(s), s.len() as int)
}

/// The index just after the last `.` of a text; 0 if it has none.
pub open spec fn after_last_dot(s: Seq<char>) -> int
    decreases s.len(),
{
    if s.len() == 0 {
        0
    } else if s.last() == '.' {
        s.len() as int
    } else {
        after_last_dot(s.drop_last())
    }
}

/// What follows the last `.` of a name; all of it if it has none.
pub open spec fn after_dot(s: Seq<char>) -> Seq<char> {
    s.subrange(after_last_dot(s), s.len() as int)
}

proof fn lemma_after_last(s: Seq<char>, c: char, i: int)
    requires
        0 <= i <= s.len(),
        forall|j: int| i <= j < s.len() ==> s[j] != c,
        i == 0 || s[i - 1] == c,
        c == '/' || c == '.',
    ensures
        c == '/' ==> after_last_slash(s) == i,
        c == '.' ==> after_last_dot(s) == i,
    decreases s.len(),
{
    if s.len() > i {
        lemma_after_last(s.drop_last(), c, i);
    } else if s.len() > 0 && i > 0 {
        assert(s.last() == c);
    }
}

/// The index just after the last occurrence of `c` (a `/` or a `.`); 0
/// if there is none.
fn after_last(s: &str, c: char) -> (r: usize)
    requires
        c == '/' || c == '.',
    ensures
        c == '/' ==> r == after_last_slash(s@),
        c == '.' ==> r == after_last_dot(s@),
        r <= s@.len(),
{
    let n = s.unicode_len();
    let mut i: usize = n;
    while i > 0 && s.get_char(i - 1) != c
        invariant
            i <= n,
            n == s@.len(),
            forall|j: int| i <= j < n ==> s@[j] != c,
        decreases i,
    {
        i = i - 1;
    }
    proof {
        lemma_after_last(s@, c, i as int);
    }
    i
}

/// What follows the last `/` of a path; all of it if it has none.
pub fn last_component_of(s: &str) -> (r: &str)
    ensures
        r@ == last_component(s@),
{
    let k = after_last(s, '/');
    s.substring_char(k, s.unicode_len())
}

/// What follows the last `.` of a name; all of it if it has none.
pub fn after_dot_of(s: &str) -> (r: &str)
    ensures
        r@ == after_dot(s@),
{
    let k = after_last(s, '.');
    s.substring_char(k, s.unicode_len())
}

/// Whether a text ends with `/`.
pub fn ends_with_slash_exec(s: &str) -> (r: bool)
    ensures
        r == ends_with_slash(s@),
{
    let n = s.unicode_len();
    n > 0 && s.get_char(n - 1) == '/'
}

} // verus!
