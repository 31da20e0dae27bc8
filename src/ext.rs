//! Extensions to plain file serving: markdown rendered to HTML, source files
//! shown as plain text, and directory listings for missing files.
use crate::codec::{ascii_chars, pct_encode, percent_encode_path};
use crate::error::{Error, IoError};
use crate::path::LocalPath;
use crate::response::{
    html_response, html_str_to_response, page, render_html, Response, ResponseView,
};
use crate::sort::{sort_names, sort_texts};
use crate::text::{after_dot, after_dot_of, last_component, last_component_of, str_eq};
use vstd::prelude::*;
use vstd::string::*;
use vstd::utf8::{decode_utf8, encode_utf8, valid_utf8};

verus! {

/// Extensions of files that are shown as plain text.
pub open spec fn text_extension(e: Seq<char>) -> bool {
    e == "c"@ || e == "cc"@ || e == "cpp"@ || e == "csv"@ || e == "fst"@ || e == "h"@
        || e == "java"@ || e == "md"@ || e == "mk"@ || e == "proto"@ || e == "py"@
        || e == "rb"@ || e == "rs"@ || e == "rst"@ || e == "sh"@ || e == "toml"@
        || e == "yml"@
}

/// Names of files that are shown as plain text.
pub open spec fn text_file_name(n: Seq<char>) -> bool {
    n == ".gitattributes"@ || n == ".gitignore"@ || n == ".mailmap"@ || n == "AUTHORS"@
        || n == "CODE_OF_CONDUCT"@ || n == "CONTRIBUTING"@ || n == "COPYING"@
        || n == "COPYRIGHT"@ || n == "Cargo.lock"@ || n == "LICENSE"@
        || n == "LICENSE-APACHE"@ || n == "LICENSE-MIT"@ || n == "Makefile"@
        || n == "rust-toolchain"@
}

/// Whether the file a request path names is shown as plain text: by what
/// follows the last `.` of its last component, or by that whole name.
pub open spec fn is_text_request(uri_path: Seq<char>) -> bool {
    text_extension(after_dot(last_component(uri_path))) || text_file_name(
        last_component(uri_path),
    )
}

fn is_text_extension(e: &str) -> (r: bool)
    ensures
        r == text_extension(e@),
{
    str_eq(e, "c") || str_eq(e, "cc") || str_eq(e, "cpp") || str_eq(e, "csv") || str_eq(e, "fst")
        || str_eq(e, "h") || str_eq(e, "java") || str_eq(e, "md") || str_eq(e, "mk")
        || str_eq(e, "proto") || str_eq(e, "py") || str_eq(e, "rb") || str_eq(e, "rs")
        || str_eq(e, "rst") || str_eq(e, "sh") || str_eq(e, "toml") || str_eq(e, "yml")
}

fn is_text_file_name(n: &str) -> (r: bool)
    ensures
        r == text_file_name(n@),
{
    str_eq(n, ".gitattributes") || str_eq(n, ".gitignore") || str_eq(n, ".mailmap")
        || str_eq(n, "AUTHORS") || str_eq(n, "CODE_OF_CONDUCT") || str_eq(n, "CONTRIBUTING")
        || str_eq(n, "COPYING") || str_eq(n, "COPYRIGHT") || str_eq(n, "Cargo.lock")
        || str_eq(n, "LICENSE") || str_eq(n, "LICENSE-APACHE") || str_eq(n, "LICENSE-MIT")
        || str_eq(n, "Makefile") || str_eq(n, "rust-toolchain")
}

/// The empty name is neither a text extension nor a text file's name.
pub proof fn lemma_empty_is_not_text()
    ensures
        !text_extension(Seq::<char>::empty()),
        !text_file_name(Seq::<char>::empty()),
{
    let e = Seq::<char>::empty();
    assert(e.len() == 0);
    reveal_strlit("c");
    reveal_strlit("cc");
    reveal_strlit("cpp");
    reveal_strlit("csv");
    reveal_strlit("fst");
    reveal_strlit("h");
    reveal_strlit("java");
    reveal_strlit("md");
    reveal_strlit("mk");
    reveal_strlit("proto");
    reveal_strlit("py");
    reveal_strlit("rb");
    reveal_strlit("rs");
    reveal_strlit("rst");
    reveal_strlit("sh");
    reveal_strlit("toml");
    reveal_strlit("yml");
    reveal_strlit(".gitattributes");
    reveal_strlit(".gitignore");
    reveal_strlit(".mailmap");
    reveal_strlit("AUTHORS");
    reveal_strlit("CODE_OF_CONDUCT");
    reveal_strlit("CONTRIBUTING");
    reveal_strlit("COPYING");
    reveal_strlit("COPYRIGHT");
    reveal_strlit("Cargo.lock");
    reveal_strlit("LICENSE");
    reveal_strlit("LICENSE-APACHE");
    reveal_strlit("LICENSE-MIT");
    reveal_strlit("Makefile");
    reveal_strlit("rust-toolchain");
}

/// Whether the file a request path names is shown as plain text.
pub fn is_text_file(uri_path: &str) -> (r: bool)
    ensures
        r == is_text_request(uri_path@),
{
    let name = last_component_of(uri_path);
    let ext = after_dot_of(name);
    is_text_extension(ext) || is_text_file_name(name)
}

/// A character's code with ASCII upper case folded to lower case.
pub open spec fn fold_code(c: char) -> u32 {
    if 'A' <= c && c <= 'Z' {
        ((c as u32) + 32) as u32
    } else {
        c as u32
    }
}

/// Whether two header names are equal, ignoring ASCII case.
pub open spec fn same_name(a: Seq<char>, b: Seq<char>) -> bool {
    a.len() == b.len() && forall|i: int| 0 <= i < a.len() ==> fold_code(#[trigger] a[i]) == fold_code(b[i])
}

/// Headers read from the left while `name` is set to `value`: the first
/// entry of that name takes the value and later ones are dropped; also
/// whether an entry of that name was met.
pub open spec fn set_scan(
    hs: Seq<(Seq<char>, Seq<char>)>,
    name: Seq<char>,
    value: Seq<char>,
) -> (Seq<(Seq<char>, Seq<char>)>, bool)
    decreases hs.len(),
{
    if hs.len() == 0 {
        (seq![], false)
    } else {
        let (out, found) = set_scan(hs.drop_last(), name, value);
        if same_name(hs.last().0, name) {
            if found {
                (out, true)
            } else {
                (out.push((name, value)), true)
            }
        } else {
            (out.push(hs.last()), found)
        }
    }
}

/// Headers with `name` set to `value`: the first entry of that name takes
/// the value and later ones are removed; where there is none the pair is
/// added at the end.
pub open spec fn set_header(
    hs: Seq<(Seq<char>, Seq<char>)>,
    name: Seq<char>,
    value: Seq<char>,
) -> Seq<(Seq<char>, Seq<char>)> {
    if set_scan(hs, name, value).1 {
        set_scan(hs, name, value).0
    } else {
        set_scan(hs, name, value).0.push((name, value))
    }
}

/// What the scan of headers keeps: entries of `name` hold the value,
/// there is at most one, and `found` tells whether there is one.
pub open spec fn scan_shape(out: Seq<(Seq<char>, Seq<char>)>, found: bool, name: Seq<char>, value: Seq<char>) -> bool {
    &&& forall|i: int| 0 <= i < out.len() && same_name(#[trigger] out[i].0, name) ==> out[i] == (name, value)
    &&& forall|i: int, j: int| 0 <= i < j < out.len() && same_name(#[trigger] out[i].0, name)
        ==> !same_name(#[trigger] out[j].0, name)
    &&& found <==> exists|i: int| 0 <= i < out.len() && same_name(#[trigger] out[i].0, name)
}

proof fn lemma_set_scan(hs: Seq<(Seq<char>, Seq<char>)>, name: Seq<char>, value: Seq<char>)
    ensures
        scan_shape(set_scan(hs, name, value).0, set_scan(hs, name, value).1, name, value),
    decreases hs.len(),
{
    if hs.len() > 0 {
        lemma_set_scan(hs.drop_last(), name, value);
        let out = set_scan(hs.drop_last(), name, value).0;
        let found = set_scan(hs.drop_last(), name, value).1;
        assert(same_name(name, name));
        let e = hs.last();
        if same_name(e.0, name) {
            if !found {
                let o2 = out.push((name, value));
                assert(set_scan(hs, name, value) == (o2, true));
                assert forall|i: int| 0 <= i < o2.len() && same_name(#[trigger] o2[i].0, name) implies o2[i] == (name, value) by {
                    if i < out.len() {
                        assert(o2[i] == out[i]);
                    }
                }
                assert forall|i: int, j: int| 0 <= i < j < o2.len() && same_name(#[trigger] o2[i].0, name)
                    implies !same_name(#[trigger] o2[j].0, name) by {
                    assert(o2[i] == out[i]);
                    if j < out.len() {
                        assert(o2[j] == out[j]);
                    }
                }
                assert(same_name(o2[out.len() as int].0, name));
            }
        } else {
            let o2 = out.push(e);
            assert(set_scan(hs, name, value) == (o2, found));
            assert forall|i: int| 0 <= i < o2.len() && same_name(#[trigger] o2[i].0, name) implies o2[i] == (name, value) by {
                if i < out.len() {
                    assert(o2[i] == out[i]);
                }
            }
            assert forall|i: int, j: int| 0 <= i < j < o2.len() && same_name(#[trigger] o2[i].0, name)
                implies !same_name(#[trigger] o2[j].0, name) by {
                assert(o2[i] == out[i]);
                if j < out.len() {
                    assert(o2[j] == out[j]);
                }
            }
            if found {
                let k = choose|k: int| 0 <= k < out.len() && same_name(#[trigger] out[k].0, name);
                assert(o2[k] == out[k]);
            }
            if exists|i: int| 0 <= i < o2.len() && same_name(#[trigger] o2[i].0, name) {
                let k = choose|k: int| 0 <= k < o2.len() && same_name(#[trigger] o2[k].0, name);
                assert(k < out.len());
                assert(o2[k] == out[k]);
            }
        }
    }
}

/// Setting a header leaves exactly one entry of that name, holding the
/// value; entries of other names are kept in order.
pub proof fn lemma_set_header_single(hs: Seq<(Seq<char>, Seq<char>)>, name: Seq<char>, value: Seq<char>)
    ensures
        scan_shape(set_header(hs, name, value), true, name, value),
{
    lemma_set_scan(hs, name, value);
    let out = set_scan(hs, name, value).0;
    let found = set_scan(hs, name, value).1;
    assert(same_name(name, name));
    if !found {
        let o2 = out.push((name, value));
        assert(set_header(hs, name, value) == o2);
        assert(same_name(o2[out.len() as int].0, name));
        assert forall|i: int| 0 <= i < o2.len() && same_name(#[trigger] o2[i].0, name) implies o2[i] == (name, value) by {
            if i < out.len() {
                assert(o2[i] == out[i]);
            }
        }
        assert forall|i: int, j: int| 0 <= i < j < o2.len() && same_name(#[trigger] o2[i].0, name)
            implies !same_name(#[trigger] o2[j].0, name) by {
            assert(o2[i] == out[i]);
        }
    } else {
        assert(set_header(hs, name, value) == out);
    }
}

fn fold_code_exec(c: char) -> (r: u32)
    ensures
        r == fold_code(c),
{
    if 'A' <= c && c <= 'Z' {
        (c as u32) + 32
    } else {
        c as u32
    }
}

/// Whether two header names are equal, ignoring ASCII case.
pub fn same_name_exec(a: &str, b: &str) -> (r: bool)
    ensures
        r == same_name(a@, b@),
{
    let n = a.unicode_len();
    if n != b.unicode_len() {
        return false;
    }
    let mut i: usize = 0;
    while i < n
        invariant
            i <= n,
            n == a@.len(),
            n == b@.len(),
            forall|j: int| 0 <= j < i ==> fold_code(#[trigger] a@[j]) == fold_code(b@[j]),
        decreases n - i,
    {
        if fold_code_exec(a.get_char(i)) != fold_code_exec(b.get_char(i)) {
            return false;
        }
        i = i + 1;
    }
    true
}

/// A response with its `content-type` set to `text/plain` where the
/// request names a file shown as plain text; otherwise unchanged.
pub open spec fn text_override(uri_path: Seq<char>, r: ResponseView) -> ResponseView {
    if is_text_request(uri_path) {
        ResponseView {
            headers: set_header(r.headers, "content-type"@, "text/plain"@),
            ..r
        }
    } else {
        r
    }
}

/// Sets the `content-type` of a response to `text/plain` where the request
/// names a source-like file, so that a browser shows it as text.
pub fn maybe_convert_mime_type_to_text(uri_path: &str, resp: &mut Response)
    ensures
        final(resp)@ == text_override(uri_path@, old(resp)@),
{
    if !is_text_file(uri_path) {
        return;
    }
    let ghost hs0 = crate::response::headers_view(resp.headers@);
    let ghost ct = "content-type"@;
    let ghost tp = "text/plain"@;
    let n = resp.headers.len();
    let mut found = false;
    let mut i: usize = 0;
    let mut out: Vec<(String, String)> = Vec::new();
    assert(hs0.subrange(0, 0) =~= Seq::<(Seq<char>, Seq<char>)>::empty());
    assert(crate::response::headers_view(out@) =~= Seq::<(Seq<char>, Seq<char>)>::empty());
    while i < n
        invariant
            i <= n,
            n == resp.headers@.len(),
            hs0 == crate::response::headers_view(resp.headers@),
            ct == "content-type"@,
            tp == "text/plain"@,
            set_scan(hs0.subrange(0, i as int), ct, tp) == (crate::response::headers_view(out@), found),
        decreases n - i,
    {
        let name = resp.headers[i].0.as_str();
        let value = resp.headers[i].1.as_str();
        let same = same_name_exec(name, "content-type");
        assert(hs0[i as int] == (name@, value@));
        let ghost t = hs0.subrange(0, i + 1);
        assert(t.drop_last() =~= hs0.subrange(0, i as int));
        assert(t.last() == (name@, value@));
        let ghost before = out@;
        if same {
            if !found {
                found = true;
                let entry = (String::from_str("content-type"), String::from_str("text/plain"));
                out.push(entry);
                assert(crate::response::headers_view(out@) =~= crate::response::headers_view(before).push((entry.0@, entry.1@)));
            }
        } else {
            let entry = (name.to_owned(), value.to_owned());
            out.push(entry);
            assert(crate::response::headers_view(out@) =~= crate::response::headers_view(before).push((name@, value@)));
        }
        i = i + 1;
    }
    assert(hs0.subrange(0, n as int) =~= hs0);
    if !found {
        let ghost before = out@;
        let entry = (String::from_str("content-type"), String::from_str("text/plain"));
        out.push(entry);
        assert(crate::response::headers_view(out@) =~= crate::response::headers_view(before).push((entry.0@, entry.1@)));
    }
    resp.headers = out;
}

/// The HTML that markdown renders to, with autolinks, header anchors
/// prefixed by `user-content-`, tables, strikethrough, task lists and
/// language classes on fenced code.
pub uninterp spec fn markdown_html(md: Seq<char>) -> Seq<char>;

/// Relies on comrak::markdown_to_html, called with the options above; the
/// result depends on the text alone.
#[verifier::external_body]
fn markdown_to_html(md: &str) -> (r: String)
    ensures
        r@ == markdown_html(md@),
{
    let mut options = comrak::Options::default();
    options.extension.autolink = true;
    options.extension.header_id_prefix = Some("user-content-".to_string());
    options.extension.table = true;
    options.extension.strikethrough = true;
    options.extension.tasklist = true;
    options.render.github_pre_lang = true;
    comrak::markdown_to_html(md, &options)
}

/// Relies on String::from_utf8: the text that the bytes encode, where they
/// are valid UTF-8.
#[verifier::external_body]
pub(crate) fn utf8_string(b: Vec<u8>) -> (r: Option<String>)
    ensures
        r.is_some() <==> valid_utf8(b@),
        r matches Some(s) ==> s@ == decode_utf8(b@),
{
    String::from_utf8(b).ok()
}

/// The response for a markdown file's bytes: its rendering as a 200 HTML
/// page, or `MarkdownUtf8` where the bytes are not UTF-8.
pub open spec fn markdown_response(b: Seq<u8>) -> Result<ResponseView, Error> {
    if !valid_utf8(b) {
        Err(Error::MarkdownUtf8)
    } else {
        match page(seq![], markdown_html(decode_utf8(b))) {
            Ok(s) => Ok(html_response(200, seq![], s)),
            Err(e) => Err(e),
        }
    }
}

/// Renders a markdown file, given the outcome of reading it.
pub fn md_path_to_html(read: Result<Vec<u8>, IoError>) -> (r: Result<Response, Error>)
    ensures
        match read {
            Err(k) => r == Err::<Response, Error>(Error::Io(k)),
            Ok(b) => match r {
                Ok(resp) => markdown_response(b@) == Ok::<ResponseView, Error>(resp@),
                Err(e) => markdown_response(b@) == Err::<ResponseView, Error>(e),
            },
        },
{
    let bytes = match read {
        Ok(b) => b,
        Err(k) => {
            return Err(Error::Io(k));
        },
    };
    let ghost b = bytes@;
    let text = match utf8_string(bytes) {
        Some(t) => t,
        None => {
            return Err(Error::MarkdownUtf8);
        },
    };
    let html = markdown_to_html(text.as_str());
    let empty = String::new();
    let body = render_html(empty.as_str(), html.as_str())?;
    Ok(html_str_to_response(body, 200))
}

/// Path components joined by `/`.
pub open spec fn join(segs: Seq<Seq<char>>) -> Seq<char>
    decreases segs.len(),
{
    if segs.len() == 0 {
        seq![]
    } else if segs.len() == 1 {
        segs[0]
    } else {
        join(segs.drop_last()) + "/"@ + segs.last()
    }
}

/// The link line of one entry of a directory listing.
pub open spec fn entry_line(dir: Seq<Seq<char>>, name: Seq<char>) -> Seq<char> {
    "<div><a href='/"@ + ascii_chars(pct_encode(encode_utf8(join(dir.push(name))))) + "'>"@ + name
        + "</a></div>\n"@
}

/// The link lines of entries, in order.
pub open spec fn entry_lines(dir: Seq<Seq<char>>, names: Seq<Seq<char>>) -> Seq<char>
    decreases names.len(),
{
    if names.len() == 0 {
        seq![]
    } else {
        entry_lines(dir, names.drop_last()) + entry_line(dir, names.last())
    }
}

/// The HTML of a listing: one link per entry, inside a `div`.
pub open spec fn listing_html(dir: Seq<Seq<char>>, names: Seq<Seq<char>>) -> Seq<char> {
    "<div>\n"@ + entry_lines(dir, names) + "</div>\n"@
}

/// Joins path components with `/`.
fn join_exec(segs: &Vec<String>) -> (r: String)
    ensures
        r@ == join(segs@.map_values(|s: String| s@)),
{
    let mut out = String::new();
    let mut i: usize = 0;
    while i < segs.len()
        invariant
            i <= segs@.len(),
            out@ == join(segs@.map_values(|s: String| s@).subrange(0, i as int)),
        decreases segs@.len() - i,
    {
        let ghost v = segs@.map_values(|s: String| s@);
        assert(v.subrange(0, i + 1).drop_last() =~= v.subrange(0, i as int));
        if i > 0 {
            out.append("/");
        } else {
            assert(v.subrange(0, 0) =~= Seq::<Seq<char>>::empty());
        }
        out.append(segs[i].as_str());
        proof {
            if i == 0 {
                assert(out@ =~= v.subrange(0, 1)[0]);
            }
        }
        i = i + 1;
    }
    assert(segs@.map_values(|s: String| s@).subrange(0, segs@.len() as int) =~= segs@.map_values(
        |s: String| s@,
    ));
    out
}

/// Writes the HTML of a listing of the directory `dir`: a link for each of
/// `names`, in order, to its path below the root, percent-encoded.
pub fn make_dir_list_body(dir: &LocalPath, names: &Vec<String>) -> (r: String)
    ensures
        r@ == listing_html(dir@, names@.map_values(|s: String| s@)),
{
    let mut buf = String::from_str("<div>\n");
    let mut i: usize = 0;
    while i < names.len()
        invariant
            i <= names@.len(),
            buf@ == "<div>\n"@ + entry_lines(dir@, names@.map_values(|s: String| s@).subrange(0, i as int)),
        decreases names@.len() - i,
    {
        let ghost v = names@.map_values(|s: String| s@);
        let name = names[i].as_str();
        let mut segs = dir.segments.clone();
        segs.push(name.to_owned());
        assert(segs@.map_values(|s: String| s@) =~= dir@.push(name@));
        let rel = join_exec(&segs);
        let url = percent_encode_path(rel.as_str());
        buf.append("<div><a href='/");
        buf.append(url.as_str());
        buf.append("'>");
        buf.append(name);
        buf.append("</a></div>\n");
        assert(v.subrange(0, i + 1).drop_last() =~= v.subrange(0, i as int));
        assert(v.subrange(0, i + 1).last() == name@);
        assert(buf@ =~= "<div>\n"@ + entry_lines(dir@, v.subrange(0, i + 1)));
        i = i + 1;
    }
    assert(names@.map_values(|s: String| s@).subrange(0, names@.len() as int) =~= names@.map_values(
        |s: String| s@,
    ));
    buf.append("</div>\n");
    buf
}

/// Directory entries as the file system gave them: a name, or `None` for
/// one whose name is not UTF-8.
pub open spec fn entries_view(e: Seq<Option<String>>) -> Seq<Option<Seq<char>>> {
    e.map_values(|o: Option<String>| match o {
        Some(s) => Some(s@),
        None => None,
    })
}

/// The names of the entries that have one, in order.
pub open spec fn present_names(e: Seq<Option<Seq<char>>>) -> Seq<Seq<char>>
    decreases e.len(),
{
    if e.len() == 0 {
        seq![]
    } else {
        match e.last() {
            Some(n) => present_names(e.drop_last()).push(n),
            None => present_names(e.drop_last()),
        }
    }
}

/// The names listed for a directory: `..`, then its entries' names in
/// ascending order.
pub open spec fn listed_names(e: Seq<Option<Seq<char>>>) -> Seq<Seq<char>> {
    seq![".."@] + sort_texts(present_names(e))
}

/// The listing page of a directory, as a 200 HTML response.
pub open spec fn listing_response(dir: Seq<Seq<char>>, e: Seq<Option<Seq<char>>>) -> Result<
    ResponseView,
    Error,
> {
    match page(seq![], listing_html(dir, listed_names(e))) {
        Ok(s) => Ok(html_response(200, seq![], s)),
        Err(err) => Err(err),
    }
}

/// Lists a directory as an HTML page of links, given its entries; an entry
/// whose name is not UTF-8 is left out.
pub fn list_dir(dir: &LocalPath, entries: Vec<Option<String>>) -> (r: Result<Response, Error>)
    ensures
        match r {
            Ok(resp) => listing_response(dir@, entries_view(entries@)) == Ok::<ResponseView, Error>(resp@),
            Err(e) => listing_response(dir@, entries_view(entries@)) == Err::<ResponseView, Error>(e),
        },
{
    let ghost ev = entries_view(entries@);
    let mut names: Vec<String> = Vec::new();
    let mut i: usize = 0;
    assert(ev.subrange(0, 0) =~= Seq::<Option<Seq<char>>>::empty());
    assert(names@.map_values(|s: String| s@) =~= Seq::<Seq<char>>::empty());
    while i < entries.len()
        invariant
            i <= entries@.len(),
            ev == entries_view(entries@),
            names@.map_values(|s: String| s@) == present_names(ev.subrange(0, i as int)),
        decreases entries@.len() - i,
    {
        let ghost t = ev.subrange(0, i + 1);
        assert(t.drop_last() =~= ev.subrange(0, i as int));
        match &entries[i] {
            Some(n) => {
                let ghost before = names@;
                names.push(n.as_str().to_owned());
                assert(names@.map_values(|s: String| s@) =~= before.map_values(|s: String| s@).push(n@));
            },
            None => {},
        }
        i = i + 1;
    }
    assert(ev.subrange(0, entries@.len() as int) =~= ev);
    let sorted = sort_names(names);
    let mut all: Vec<String> = Vec::new();
    all.push(String::from_str(".."));
    let mut j: usize = 0;
    while j < sorted.len()
        invariant
            j <= sorted@.len(),
            all@.map_values(|s: String| s@) == seq![".."@] + sorted@.map_values(|s: String| s@).subrange(0, j as int),
        decreases sorted@.len() - j,
    {
        let ghost before = all@;
        all.push(sorted[j].as_str().to_owned());
        assert(all@.map_values(|s: String| s@) =~= before.map_values(|s: String| s@).push(sorted@[j as int]@));
        assert(sorted@.map_values(|s: String| s@).subrange(0, j + 1) =~= sorted@.map_values(|s: String| s@).subrange(0, j as int).push(sorted@[j as int]@));
        j = j + 1;
    }
    assert(sorted@.map_values(|s: String| s@).subrange(0, sorted@.len() as int) =~= sorted@.map_values(|s: String| s@));
    let html = make_dir_list_body(dir, &all);
    let empty = String::new();
    let body = render_html(empty.as_str(), html.as_str())?;
    Ok(html_str_to_response(body, 200))
}

} // verus!
