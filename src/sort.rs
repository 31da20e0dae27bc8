//! Ordering directory entries by name.
use vstd::prelude::*;
use vstd::string::*;

verus! {

broadcast use vstd::seq_lib::to_multiset_insert;

/// Lexicographic order of texts by code point, which is also the byte order
/// of their UTF-8 forms.
pub open spec fn text_le(a: Seq<char>, b: Seq<char>) -> bool
    decreases a.len(),
{
    if a.len() == 0 {
        true
    } else if b.len() == 0 {
        false
    } else if (a[0] as u32) != (b[0] as u32) {
        (a[0] as u32) < (b[0] as u32)
    } else {
        text_le(a.drop_first(), b.drop_first())
    }
}

/// Whether texts are in ascending order.
pub open spec fn sorted(s: Seq<Seq<char>>) -> bool {
    forall|i: int, j: int| 0 <= i < j < s.len() ==> text_le(#[trigger] s[i], #[trigger] s[j])
}

proof fn lemma_text_le_total(a: Seq<char>, b: Seq<char>)
    ensures
        text_le(a, b) || text_le(b, a),
    decreases a.len(),
{
    if a.len() > 0 && b.len() > 0 && (a[0] as u32) == (b[0] as u32) {
        lemma_text_le_total(a.drop_first(), b.drop_first());
    }
}

proof fn lemma_text_le_trans(a: Seq<char>, b: Seq<char>, c: Seq<char>)
    requires
        text_le(a, b),
        text_le(b, c),
    ensures
        text_le(a, c),
    decreases a.len(),
{
    if a.len() > 0 && b.len() > 0 && c.len() > 0 && (a[0] as u32) == (b[0] as u32) && (b[0] as u32) == (c[0] as u32) {
        lemma_text_le_trans(a.drop_first(), b.drop_first(), c.drop_first());
    }
}

/// Whether `a` comes before or equals `b` in the text order.
fn text_le_exec(a: &str, b: &str) -> (r: bool)
    ensures
        r == text_le(a@, b@),
{
    let n = a.unicode_len();
    let m = b.unicode_len();
    let mut i: usize = 0;
    assert(a@.subrange(0, n as int) =~= a@);
    assert(b@.subrange(0, m as int) =~= b@);
    while i < n && i < m && (a.get_char(i) as u32) == (b.get_char(i) as u32)
        invariant
            i <= n,
            i <= m,
            n == a@.len(),
            m == b@.len(),
            text_le(a@, b@) == text_le(a@.subrange(i as int, n as int), b@.subrange(i as int, m as int)),
        decreases n - i,
    {
        let ghost sa = a@.subrange(i as int, n as int);
        let ghost sb = b@.subrange(i as int, m as int);
        assert(sa.drop_first() =~= a@.subrange(i + 1, n as int));
        assert(sb.drop_first() =~= b@.subrange(i + 1, m as int));
        i = i + 1;
    }
    let ghost sa = a@.subrange(i as int, n as int);
    let ghost sb = b@.subrange(i as int, m as int);
    if i == n {
        true
    } else if i == m {
        false
    } else {
        assert(sa[0] == a@[i as int] && sb[0] == b@[i as int]);
        (a.get_char(i) as u32) < (b.get_char(i) as u32)
    }
}

/// `x` inserted into `s` before the first element that it comes before.
pub open spec fn insert_sorted(s: Seq<Seq<char>>, x: Seq<char>) -> Seq<Seq<char>>
    decreases s.len(),
{
    if s.len() == 0 {
        seq![x]
    } else if text_le(s[0], x) {
        seq![s[0]] + insert_sorted(s.drop_first(), x)
    } else {
        seq![x] + s
    }
}

/// The texts in ascending order, equal ones kept in their first order.
pub open spec fn sort_texts(s: Seq<Seq<char>>) -> Seq<Seq<char>>
    decreases s.len(),
{
    if s.len() == 0 {
        seq![]
    } else {
        insert_sorted(sort_texts(s.drop_last()), s.last())
    }
}

proof fn lemma_insert_at(s: Seq<Seq<char>>, x: Seq<char>, p: int)
    requires
        0 <= p <= s.len(),
        forall|k: int| 0 <= k < p ==> text_le(#[trigger] s[k], x),
        p == s.len() || !text_le(s[p], x),
    ensures
        insert_sorted(s, x) == s.insert(p, x),
    decreases s.len(),
{
    if s.len() == 0 {
        assert(s.insert(p, x) =~= seq![x]);
    } else if p == 0 {
        assert(s.insert(0, x) =~= seq![x] + s);
    } else {
        let t = s.drop_first();
        assert forall|k: int| 0 <= k < p - 1 implies text_le(#[trigger] t[k], x) by {
            assert(t[k] == s[k + 1]);
        }
        lemma_insert_at(t, x, p - 1);
        assert(s.insert(p, x) =~= seq![s[0]] + t.insert(p - 1, x));
    }
}

/// Sorts texts in ascending order.
pub fn sort_names(names: Vec<String>) -> (r: Vec<String>)
    ensures
        sorted(r@.map_values(|s: String| s@)),
        r@.map_values(|s: String| s@) == sort_texts(names@.map_values(|s: String| s@)),
        r@.map_values(|s: String| s@).to_multiset() == names@.map_values(|s: String| s@).to_multiset(),
{
    let ghost src = names@.map_values(|s: String| s@);
    let mut out: Vec<String> = Vec::new();
    let mut i: usize = 0;
    assert(src.subrange(0, 0) =~= Seq::<Seq<char>>::empty());
    assert(out@.map_values(|s: String| s@) =~= Seq::<Seq<char>>::empty());
    while i < names.len()
        invariant
            i <= names@.len(),
            src == names@.map_values(|s: String| s@),
            sorted(out@.map_values(|s: String| s@)),
            out@.map_values(|s: String| s@) == sort_texts(src.subrange(0, i as int)),
            out@.map_values(|s: String| s@).to_multiset() == src.subrange(0, i as int).to_multiset(),
        decreases names@.len() - i,
    {
        let x = names[i].as_str();
        let ghost ov = out@.map_values(|s: String| s@);
        let mut p: usize = 0;
        while p < out.len() && text_le_exec(out[p].as_str(), x)
            invariant
                p <= out@.len(),
                ov == out@.map_values(|s: String| s@),
                forall|k: int| 0 <= k < p ==> text_le(#[trigger] ov[k], x@),
            decreases out@.len() - p,
        {
            p = p + 1;
        }
        proof {
            if p < out@.len() {
                lemma_text_le_total(ov[p as int], x@);
            }
            lemma_insert_at(ov, x@, p as int);
            let t = src.subrange(0, i + 1);
            assert(t.drop_last() =~= src.subrange(0, i as int));
            assert(t.last() == x@);
        }
        out.insert(p, x.to_owned());
        let ghost nv = out@.map_values(|s: String| s@);
        assert(nv =~= ov.insert(p as int, x@));
        assert forall|a: int, b: int| 0 <= a < b < nv.len() implies text_le(
            #[trigger] nv[a],
            #[trigger] nv[b],
        ) by {
            if b < p {
            } else if a > p {
                assert(nv[a] == ov[a - 1] && nv[b] == ov[b - 1]);
            } else if a == p {
                assert(text_le(x@, ov[p as int]));
                if b - 1 > p {
                    lemma_text_le_trans(x@, ov[p as int], ov[b - 1]);
                }
            } else if b == p {
            } else {
                assert(nv[b] == ov[b - 1]);
                assert(text_le(ov[a], x@));
                assert(text_le(x@, ov[p as int]));
                lemma_text_le_trans(ov[a], x@, ov[p as int]);
                if b - 1 > p {
                    lemma_text_le_trans(ov[a], ov[p as int], ov[b - 1]);
                }
            }
        }
        assert(src.subrange(0, i + 1) =~= src.subrange(0, i as int).push(x@));
        assert(src.subrange(0, i as int).push(x@) =~= src.subrange(0, i as int).insert(i as int, x@));
        i = i + 1;
    }
    assert(src.subrange(0, names@.len() as int) =~= src);
    out
}

} // verus!
