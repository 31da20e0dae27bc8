//! Properties of the request pipeline as a whole.
use crate::error::{error_status, Error, IoError, IoKind};
use crate::ext::{listing_response, markdown_html, markdown_response};
use crate::codec::{ascii_chars, has_escape, hex_digit, in_path_set, lemma_decode_encode, pct_decode, pct_encode};
use crate::ext::join;
use crate::path::{close_segment, lemma_before_query, proper_segments, request_target, resolve_segments, scan_segments};
use crate::response::{html_response, page, BodyView, ResponseView};
use crate::serve::{file_response, redirect_location, redirect_response};
use crate::pipeline::{
    extension_stage, in_phase, is_markdown, resume_step, start_step, AnswerView,
    ExchangeView, NextView, PhaseView, WantView,
};
use crate::text::{after_dot, after_last_slash, ends_with_slash, last_component};
use vstd::prelude::*;
use vstd::utf8::{
    decode_utf8, encode_utf8, encode_utf8_decode_utf8, encode_utf8_valid_utf8, is_ascii_chars,
    is_ascii_chars_encode_utf8, valid_utf8,
};

verus! {

/// A `GET` of a path without a trailing `/` that names a directory is
/// answered with a 302 whose `location` is the path with `/` added and the
/// query string kept, and nothing more is asked of the file system.
pub proof fn lemma_directory_redirect(use_extensions: bool, path: Seq<char>, query: Option<Seq<char>>)
    requires
        !ends_with_slash(path),
        request_target(path) is Ok,
    ensures
        start_step(use_extensions, "GET"@, path, query) is Ask,
        ({
            let ex = start_step(use_extensions, "GET"@, path, query)->Ask_0;
            &&& start_step(use_extensions, "GET"@, path, query)->Ask_1 == WantView::IsDir(ex.target)
            &&& resume_step(ex, AnswerView::IsDir(true)) == NextView::Done(
                Ok(redirect_response(path, query)),
            )
        }),
        redirect_response(path, query).status == 302,
        redirect_response(path, query).headers == seq![("location"@, redirect_location(path, query))],
        redirect_response(path, query).body == BodyView::Empty,
{
}

proof fn lemma_slash_last_component(path: Seq<char>)
    requires
        ends_with_slash(path),
    ensures
        last_component(path).len() == 0,
{
    assert(after_last_slash(path) == path.len());
}

/// A `GET` of a path ending in `/` that names a directory serves the
/// directory's `index.html` where it can be opened, not a listing, whatever
/// the directory is named.
pub proof fn lemma_index_served(use_extensions: bool, path: Seq<char>, query: Option<Seq<char>>, len: u64)
    requires
        ends_with_slash(path),
        request_target(path) is Ok,
    ensures
        ({
            let t = request_target(path)->Ok_0;
            let ex = start_step(use_extensions, "GET"@, path, query)->Ask_0;
            let open = resume_step(ex, AnswerView::IsDir(true));
            &&& start_step(use_extensions, "GET"@, path, query) is Ask
            &&& open is Ask
            &&& open->Ask_1 == WantView::Open(t.push("index.html"@))
            &&& resume_step(open->Ask_0, AnswerView::Opened(Ok(len)))
                == NextView::Done(Ok(file_response(t.push("index.html"@), len)))
        }),
{
    lemma_slash_last_component(path);
    let name = last_component(path);
    assert(after_dot(name).len() == 0);
    assert(after_dot(name) =~= Seq::<char>::empty());
    assert(name =~= Seq::<char>::empty());
    crate::ext::lemma_empty_is_not_text();
}

/// With extensions on, a file that cannot be found (other than a markdown
/// file, which is read instead) is answered by listing the directory the
/// request names, where it is one (the directory whose `index.html` is
/// missing), and with 404 where that path does not exist or is not a
/// directory.
pub proof fn lemma_missing_file(
    ex: ExchangeView,
    p: Seq<Seq<char>>,
    d: bool,
    missing: IoError,
    gone: IoError,
    entries: Seq<Option<Seq<char>>>,
)
    requires
        ex.use_extensions,
        d || !is_markdown(ex.target),
        ex.phase == PhaseView::Open(p, d),
        missing.kind == IoKind::NotFound,
        gone.kind == IoKind::NotFound,
    ensures
        ({
            let meta = resume_step(ex, AnswerView::Opened(Err(missing)));
            let lister = resume_step(meta->Ask_0, AnswerView::Meta(Ok(true)));
            &&& meta is Ask
            &&& meta->Ask_1 == WantView::Meta(ex.target)
            &&& lister is Ask
            &&& lister->Ask_1 == WantView::ListDir(ex.target)
            &&& resume_step(lister->Ask_0, AnswerView::Listed(Ok(entries)))
                == NextView::Done(listing_response(ex.target, entries))
            &&& resume_step(meta->Ask_0, AnswerView::Meta(Ok(false)))
                == NextView::Done(Err(Error::Io(missing)))
            &&& resume_step(meta->Ask_0, AnswerView::Meta(Err(gone)))
                == NextView::Done(Err(Error::Io(gone)))
            &&& error_status(Error::Io(missing)) == 404
            &&& error_status(Error::Io(gone)) == 404
        }),
{
}

/// With extensions on, a markdown file (not a directory) is read and
/// rendered whatever file serving gave; where its bytes are UTF-8 and the page renders, the answer
/// is a 200 `text/html` page.
pub proof fn lemma_markdown_page(ex: ExchangeView, outcome: Result<ResponseView, Error>, b: Seq<u8>)
    requires
        ex.use_extensions,
        is_markdown(ex.target),
        valid_utf8(b),
        page(seq![], markdown_html(decode_utf8(b))) is Ok,
    ensures
        extension_stage(ex, false, outcome) == NextView::Ask(in_phase(ex, PhaseView::Markdown), WantView::Read(ex.target)),
        ({
            let r = resume_step(in_phase(ex, PhaseView::Markdown), AnswerView::Read(Ok(b)));
            &&& r is Done
            &&& r->Done_0 is Ok
            &&& r->Done_0->Ok_0.status == 200
            &&& r->Done_0->Ok_0.headers.last() == ("content-type"@, "text/html"@)
        }),
{
    let s = page(seq![], markdown_html(decode_utf8(b)))->Ok_0;
    assert(markdown_response(b) == Ok::<ResponseView, Error>(html_response(200, seq![], s)));
}

/// The same request against the same file system gets the same answers:
/// each step depends on its inputs alone.
pub proof fn lemma_deterministic(ex1: ExchangeView, ex2: ExchangeView, a1: AnswerView, a2: AnswerView)
    requires
        ex1 == ex2,
        a1 == a2,
    ensures
        resume_step(ex1, a1) == resume_step(ex2, a2),
        start_step(ex1.use_extensions, "GET"@, ex1.path, ex1.query) == start_step(
            ex2.use_extensions,
            "GET"@,
            ex2.path,
            ex2.query,
        ),
{
}

proof fn lemma_scan_word(p: Seq<char>, w: Seq<char>)
    requires
        !w.contains('/'),
    ensures
        scan_segments(p + w) == (scan_segments(p).0, scan_segments(p).1 + w),
    decreases w.len(),
{
    if w.len() == 0 {
        assert(p + w =~= p);
        assert(scan_segments(p).1 + w =~= scan_segments(p).1);
    } else {
        let v = w.drop_last();
        assert(!v.contains('/')) by {
            if v.contains('/') {
                let k = choose|k: int| 0 <= k < v.len() && v[k] == '/';
                assert(w[k] == '/');
            }
        }
        lemma_scan_word(p, v);
        assert((p + w).drop_last() =~= p + v);
        assert((p + w).last() == w.last());
        assert(w.last() != '/') by {
            assert(w[w.len() - 1] == w.last());
        }
        assert(scan_segments(p).1 + v + seq![w.last()] =~= scan_segments(p).1 + w);
    }
}

proof fn lemma_scan_join(segs: Seq<Seq<char>>)
    requires
        segs.len() > 0,
        proper_segments(segs),
    ensures
        scan_segments(join(segs)) == (segs.drop_last(), segs.last()),
    decreases segs.len(),
{
    assert(!segs.last().contains('/')) by {
        assert(segs.last() == segs[segs.len() - 1]);
    }
    if segs.len() == 1 {
        lemma_scan_word(Seq::<char>::empty(), segs[0]);
        assert(Seq::<char>::empty() + segs[0] =~= segs[0]);
        assert(scan_segments(Seq::<char>::empty()).1 + segs[0] =~= segs[0]);
        assert(segs.drop_last() =~= Seq::<Seq<char>>::empty());
    } else {
        let init = segs.drop_last();
        assert(proper_segments(init)) by {
            assert forall|i: int| 0 <= i < init.len() implies {
                let c = #[trigger] init[i];
                c.len() > 0 && c != seq!['.'] && c != seq!['.', '.'] && !c.contains('/')
            } by {
                assert(init[i] == segs[i]);
            }
        }
        lemma_scan_join(init);
        let p = join(init) + "/"@;
        reveal_strlit("/");
        assert(p.drop_last() =~= join(init));
        assert(p.last() == '/');
        let last = init.last();
        assert(last == segs[segs.len() - 2]);
        assert(close_segment(init.drop_last(), last) =~= init);
        assert(scan_segments(p) == (init, Seq::<char>::empty()));
        lemma_scan_word(p, segs.last());
        assert(Seq::<char>::empty() + segs.last() =~= segs.last());
        assert(join(segs) == p + segs.last());
    }
}

/// Joining proper path components with `/` and resolving the result gives
/// the same components back: the relative path of a listed entry names
/// that entry.
pub proof fn lemma_resolve_join(segs: Seq<Seq<char>>)
    requires
        proper_segments(segs),
    ensures
        resolve_segments(join(segs)) == segs,
{
    if segs.len() == 0 {
        assert(scan_segments(join(segs)) == (Seq::<Seq<char>>::empty(), Seq::<char>::empty()));
    } else {
        lemma_scan_join(segs);
        let last = segs.last();
        assert(last == segs[segs.len() - 1]);
        assert(segs.drop_last().push(last) =~= segs);
    }
}

proof fn lemma_encoded_is_plain(b: Seq<u8>)
    ensures
        forall|i: int| 0 <= i < pct_encode(b).len() ==> #[trigger] pct_encode(b)[i] < 0x80 && pct_encode(b)[i] != 0x3f,
    decreases b.len(),
{
    if b.len() > 0 {
        let rest = b.subrange(1, b.len() as int);
        lemma_encoded_is_plain(rest);
        let head = crate::codec::pct_encode_byte(b[0]);
        assert(pct_encode(b) == head + pct_encode(rest));
        assert forall|i: int| 0 <= i < head.len() implies #[trigger] head[i] < 0x80 && head[i] != 0x3f by {
            if in_path_set(b[0]) {
                assert(b[0] / 16 < 16 && b[0] % 16 < 16);
                assert(head[1] == hex_digit(b[0] / 16));
                assert(head[2] == hex_digit(b[0] % 16));
            }
        }
        assert forall|i: int| 0 <= i < pct_encode(b).len() implies #[trigger] pct_encode(b)[i] < 0x80 && pct_encode(b)[i] != 0x3f by {
            if i >= head.len() {
                assert(pct_encode(b)[i] == pct_encode(rest)[i - head.len()]);
            } else {
                assert(pct_encode(b)[i] == head[i]);
            }
        }
    }
}

/// The request path that a directory listing links an entry with: `/` and
/// the entry's relative path, percent-encoded.
pub open spec fn link_path(segs: Seq<Seq<char>>) -> Seq<char> {
    "/"@ + ascii_chars(pct_encode(encode_utf8(join(segs))))
}

/// A link in a directory listing leads back to its entry: the request path
/// it holds resolves to the entry's components, for every entry whose
/// relative path has no `%` already followed by two hexadecimal digits.
pub proof fn lemma_listing_link_resolves(segs: Seq<Seq<char>>)
    requires
        proper_segments(segs),
        !has_escape(encode_utf8(join(segs))),
    ensures
        request_target(link_path(segs)) == Ok::<Seq<Seq<char>>, Error>(segs),
{
    let j = join(segs);
    let bytes = encode_utf8(j);
    let e = pct_encode(bytes);
    let cs = ascii_chars(e);
    let href = link_path(segs);
    reveal_strlit("/");
    assert(href =~= seq!['/'] + cs);
    lemma_encoded_is_plain(bytes);
    assert forall|i: int| 0 <= i < href.len() implies '\0' <= #[trigger] href[i] <= '\u{7f}' && href[i] != '?'
        && (href[i] as u8) == (seq![0x2fu8] + e)[i] by {
        if i > 0 {
            assert(href[i] == cs[i - 1]);
            assert(cs[i - 1] == e[i - 1] as char);
            assert(e[i - 1] < 0x80 && e[i - 1] != 0x3f);
        }
    }
    assert(is_ascii_chars(href));
    is_ascii_chars_encode_utf8(href);
    assert(encode_utf8(href) =~= seq![0x2fu8] + e);
    lemma_before_query(href, href.len() as int);
    assert(href.subrange(0, href.len() as int) =~= href);
    let s = seq![0x2fu8] + e;
    assert(s.subrange(1, s.len() as int) =~= e);
    lemma_decode_encode(bytes);
    assert(pct_decode(s) == seq![0x2fu8] + pct_decode(e));
    let d = seq!['/'] + j;
    assert(d.drop_first() =~= j);
    assert(encode_utf8(d) =~= seq![0x2fu8] + bytes);
    encode_utf8_valid_utf8(d);
    encode_utf8_decode_utf8(d);
    assert(d.subrange(1, d.len() as int) =~= j);
    lemma_resolve_join(segs);
}

} // verus!
