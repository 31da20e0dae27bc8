//! Mapping a request path to a path under the root directory.
use crate::codec::decode_percent_utf8;
use crate::codec::pct_decode;
use crate::codec::push_char;
use crate::error::Error;
use vstd::prelude::*;
use vstd::string::*;
use vstd::utf8::{decode_utf8, encode_utf8, valid_utf8};

verus! {

/// A path below the root directory, as its list of components. No component
/// is empty, `.` or `..`, or holds a `/`, so the path never leaves the root.
pub struct LocalPath {
    pub segments: Vec<String>,
}

impl View for LocalPath {
    type V = Seq<Seq<char>>;

    open spec fn view(&self) -> Seq<Seq<char>> {
        self.segments@.map_values(|s: String| s@)
    }
}

/// The part of a request path before the first `?`.
pub open spec fn before_query(p: Seq<char>) -> Seq<char>
    decreases p.len(),
{
    if p.len() == 0 || p[0] == '?' {
        seq![]
    } else {
        seq![p[0]] + before_query(p.subrange(1, p.len() as int))
    }
}

/// Ends the component `cur`: an empty component and `.` are dropped, `..`
/// removes the last component (none is removed above the root).
pub open spec fn close_segment(done: Seq<Seq<char>>, cur: Seq<char>) -> Seq<Seq<char>> {
    if cur.len() == 0 || cur == seq!['.'] {
        done
    } else if cur == seq!['.', '.'] {
        if done.len() > 0 {
            done.drop_last()
        } else {
            done
        }
    } else {
        done.push(cur)
    }
}

/// The components finished and the component under way after reading `s`
/// from the left.
pub open spec fn scan_segments(s: Seq<char>) -> (Seq<Seq<char>>, Seq<char>)
    decreases s.len(),
{
    if s.len() == 0 {
        (seq![], seq![])
    } else {
        let (done, cur) = scan_segments(s.drop_last());
        if s.last() == '/' {
            (close_segment(done, cur), seq![])
        } else {
            (done, cur.push(s.last()))
        }
    }
}

/// The normalised components of a relative path.
pub open spec fn resolve_segments(s: Seq<char>) -> Seq<Seq<char>> {
    close_segment(scan_segments(s).0, scan_segments(s).1)
}

/// Whether every component is a proper name: not empty, `.` or `..`, and
/// without `/`.
pub open spec fn proper_segments(segs: Seq<Seq<char>>) -> bool {
    forall|i: int|
        0 <= i < segs.len() ==> {
            let c = #[trigger] segs[i];
            c.len() > 0 && c != seq!['.'] && c != seq!['.', '.'] && !c.contains('/')
        }
}

/// The local path that a request path names: the path before any query,
/// percent-decoded, read as UTF-8, required to start with `/`, and
/// resolved below the root.
pub open spec fn request_target(p: Seq<char>) -> Result<Seq<Seq<char>>, Error> {
    let b = pct_decode(encode_utf8(before_query(p)));
    if !valid_utf8(b) {
        Err(Error::UriNotUtf8)
    } else {
        let d = decode_utf8(b);
        if d.len() == 0 || d[0] != '/' {
            Err(Error::UriNotAbsolute)
        } else {
            Ok(resolve_segments(d.subrange(1, d.len() as int)))
        }
    }
}

pub(crate) proof fn lemma_before_query(p: Seq<char>, i: int)
    requires
        0 <= i <= p.len(),
        forall|j: int| 0 <= j < i ==> p[j] != '?',
        i == p.len() || p[i] == '?',
    ensures
        before_query(p) == p.subrange(0, i),
    decreases i,
{
    if i == 0 {
        assert(p.subrange(0, 0) =~= Seq::<char>::empty());
    } else {
        let q = p.subrange(1, p.len() as int);
        assert forall|j: int| 0 <= j < i - 1 implies q[j] != '?' by {
            assert(q[j] == p[j + 1]);
        }
        lemma_before_query(q, i - 1);
        assert(seq![p[0]] + q.subrange(0, i - 1) =~= p.subrange(0, i));
    }
}

fn close_segment_exec(done: &mut Vec<String>, cur: String)
    requires
        proper_segments(old(done)@.map_values(|s: String| s@)),
        !cur@.contains('/'),
    ensures
        final(done)@.map_values(|s: String| s@) == close_segment(
            old(done)@.map_values(|s: String| s@),
            cur@,
        ),
        proper_segments(final(done)@.map_values(|s: String| s@)),
{
    let n = cur.as_str().unicode_len();
    if n == 0 {
        return;
    }
    let c0 = cur.as_str().get_char(0);
    if n == 1 && c0 == '.' {
        assert(cur@ =~= seq!['.']);
        return;
    }
    if n == 2 && c0 == '.' && cur.as_str().get_char(1) == '.' {
        assert(cur@ =~= seq!['.', '.']);
        if done.len() > 0 {
            let _ = done.pop();
            assert(done@.map_values(|s: String| s@) =~= old(done)@.map_values(
                |s: String| s@,
            ).drop_last());
        }
        return;
    }
    assert(cur@ != seq!['.']) by {
        if n == 1 {
            assert(cur@[0] == c0);
        }
    }
    assert(cur@ != seq!['.', '.']) by {
        if n == 2 && cur@ == seq!['.', '.'] {
            assert(cur@[0] == c0);
            assert(cur@[1] == '.');
        }
    }
    done.push(cur);
    assert(done@.map_values(|s: String| s@) =~= old(done)@.map_values(|s: String| s@).push(
        cur@,
    ));
}

/// Maps a request path to the local path it names below the root directory.
///
/// Fails with `UriNotUtf8` where the decoded path is not UTF-8 and with
/// `UriNotAbsolute` where it does not start with `/`.
pub fn local_path_for_request(uri_path: &str) -> (r: Result<LocalPath, Error>)
    ensures
        match r {
            Ok(lp) => request_target(uri_path@) == Ok::<Seq<Seq<char>>, Error>(lp@) && proper_segments(lp@),
            Err(e) => request_target(uri_path@) == Err::<Seq<Seq<char>>, Error>(e),
        },
{
    let n = uri_path.unicode_len();
    let mut end: usize = 0;
    while end < n && uri_path.get_char(end) != '?'
        invariant
            end <= n,
            n == uri_path@.len(),
            forall|j: int| 0 <= j < end ==> uri_path@[j] != '?',
        decreases n - end,
    {
        end = end + 1;
    }
    proof {
        lemma_before_query(uri_path@, end as int);
    }
    let path = uri_path.substring_char(0, end);
    let decoded = match decode_percent_utf8(path) {
        Some(d) => d,
        None => {
            return Err(Error::UriNotUtf8);
        },
    };
    let d = decoded.as_str();
    let len = d.unicode_len();
    if len == 0 || d.get_char(0) != '/' {
        return Err(Error::UriNotAbsolute);
    }
    let ghost rel = d@.subrange(1, len as int);
    let mut done: Vec<String> = Vec::new();
    let mut cur = String::new();
    let mut i: usize = 1;
    assert(rel.subrange(0, 0) =~= Seq::<char>::empty());
    assert(done@.map_values(|s: String| s@) =~= Seq::<Seq<char>>::empty());
    while i < len
        invariant
            1 <= i <= len,
            len == d@.len(),
            rel == d@.subrange(1, len as int),
            proper_segments(done@.map_values(|s: String| s@)),
            !cur@.contains('/'),
            scan_segments(rel.subrange(0, i - 1)) == (done@.map_values(|s: String| s@), cur@),
        decreases len - i,
    {
        let c = d.get_char(i);
        let ghost pre = rel.subrange(0, i - 1);
        let ghost next = rel.subrange(0, i as int);
        assert(next.drop_last() =~= pre);
        assert(next.last() == c);
        if c == '/' {
            let finished = cur;
            close_segment_exec(&mut done, finished);
            cur = String::new();
            assert(cur@ =~= Seq::<char>::empty());
        } else {
            let ghost before = cur@;
            push_char(&mut cur, c);
            assert(!cur@.contains('/')) by {
                if cur@.contains('/') {
                    let k = choose|k: int| 0 <= k < cur@.len() && cur@[k] == '/';
                    if k < before.len() {
                        assert(before[k] == '/');
                    }
                }
            }
        }
        i = i + 1;
    }
    assert(rel.subrange(0, i - 1) =~= rel);
    close_segment_exec(&mut done, cur);
    Ok(LocalPath { segments: done })
}

} // verus!

verus! {

/// The index of the last `.` in a name, or -1.
pub open spec fn last_dot(s: Seq<char>) -> int
    decreases s.len(),
{
    if s.len() == 0 {
        -1
    } else if s.last() == '.' {
        s.len() - 1
    } else {
        last_dot(s.drop_last())
    }
}

/// The extension of a file name: what follows its last `.`, where that `.`
/// is not the name's first character.
pub open spec fn ext_of(name: Seq<char>) -> Option<Seq<char>> {
    if last_dot(name) > 0 {
        Some(name.subrange(last_dot(name) + 1, name.len() as int))
    } else {
        None
    }
}

/// The extension of a local path's last component, if it has one.
pub open spec fn path_ext(p: Seq<Seq<char>>) -> Option<Seq<char>> {
    if p.len() == 0 {
        None
    } else {
        ext_of(p.last())
    }
}

proof fn lemma_last_dot_range(s: Seq<char>)
    ensures
        -1 <= last_dot(s) < s.len(),
        last_dot(s) >= 0 ==> s[last_dot(s)] == '.',
    decreases s.len(),
{
    if s.len() > 0 && s.last() != '.' {
        lemma_last_dot_range(s.drop_last());
    }
}

proof fn lemma_last_dot_scan(s: Seq<char>, i: int)
    requires
        0 <= i <= s.len(),
        forall|j: int| i <= j < s.len() ==> s[j] != '.',
    ensures
        last_dot(s) == last_dot(s.subrange(0, i)),
    decreases s.len() - i,
{
    if i < s.len() {
        assert(s.drop_last().subrange(0, i) =~= s.subrange(0, i));
        lemma_last_dot_scan(s.drop_last(), i);
    } else {
        assert(s.subrange(0, i) =~= s);
    }
}

/// One more than the index of the last `.` in a name; 0 if it has none.
fn find_last_dot(name: &str) -> (r: usize)
    ensures
        r == last_dot(name@) + 1,
{
    let n = name.unicode_len();
    let mut i: usize = n;
    while i > 0 && name.get_char(i - 1) != '.'
        invariant
            i <= n,
            n == name@.len(),
            forall|j: int| i <= j < n ==> name@[j] != '.',
        decreases i,
    {
        i = i - 1;
    }
    proof {
        lemma_last_dot_scan(name@, i as int);
        if i > 0 {
            let t = name@.subrange(0, i as int);
            assert(t.last() == '.');
        } else {
            assert(name@.subrange(0, 0).len() == 0);
        }
    }
    i
}

/// The extension of a file name, if it has one.
pub fn file_ext(name: &str) -> (r: Option<String>)
    ensures
        match r {
            Some(e) => ext_of(name@) == Some(e@),
            None => ext_of(name@).is_none(),
        },
{
    let k = find_last_dot(name);
    proof {
        lemma_last_dot_range(name@);
    }
    if k > 1 {
        let n = name.unicode_len();
        Some(name.substring_char(k, n).to_owned())
    } else {
        None
    }
}

impl LocalPath {
    /// The extension of the last component, if it has one.
    pub fn extension(&self) -> (r: Option<String>)
        ensures
            match r {
                Some(e) => path_ext(self@) == Some(e@),
                None => path_ext(self@).is_none(),
            },
    {
        let n = self.segments.len();
        if n == 0 {
            None
        } else {
            let last = &self.segments[n - 1];
            assert(self@.last() == last@);
            file_ext(last.as_str())
        }
    }

    /// A copy of the path.
    pub fn duplicate(&self) -> (r: LocalPath)
        ensures
            r@ == self@,
    {
        let segments = self.segments.clone();
        let r = LocalPath { segments };
        assert(r@ =~= self@);
        r
    }

    /// The same path with `index.html` appended.
    pub fn with_index(&self) -> (r: LocalPath)
        ensures
            r@ == self@.push("index.html"@),
    {
        let mut segments = self.segments.clone();
        assert(segments@.map_values(|s: String| s@) =~= self@);
        segments.push(String::from_str("index.html"));
        let r = LocalPath { segments };
        assert(r@ =~= self@.push("index.html"@));
        r
    }
}

} // verus!
