use basic_http_server::codec::percent_encode_path;
use basic_http_server::error::{Error, IoError, IoKind};
use basic_http_server::ext::{is_text_file, same_name_exec, list_dir, make_dir_list_body, maybe_convert_mime_type_to_text, md_path_to_html};
use basic_http_server::path::{file_ext, local_path_for_request, LocalPath};
use basic_http_server::response::{decimal_string, render_html, status_title_string, Body, Response};
use basic_http_server::serve::{
    file_path_mime, handle_unsupported_request, log_error_chain, needs_redirect_check,
    respond_with_file, transform_error, try_dir_redirect,
};
use basic_http_server::sort::sort_names;
use basic_http_server::text::str_eq;
use percent_encoding::{utf8_percent_encode, AsciiSet, CONTROLS};

const FRAGMENT: &AsciiSet = &CONTROLS.add(b' ').add(b'"').add(b'<').add(b'>').add(b'`');
const PATH: &AsciiSet = &FRAGMENT.add(b'#').add(b'?').add(b'{').add(b'}');

fn io(kind: IoKind, message: &str) -> IoError {
    IoError { kind, message: message.to_string() }
}

fn segs(p: &LocalPath) -> Vec<&str> {
    p.segments.iter().map(|s| s.as_str()).collect()
}

fn lp(parts: &[&str]) -> LocalPath {
    LocalPath { segments: parts.iter().map(|s| s.to_string()).collect() }
}

/// Percent-decodes for the round-trip checks.
fn decode(s: &str) -> String {
    percent_encoding::percent_decode_str(s).decode_utf8().unwrap().into_owned()
}

#[test]
fn resolves_plain_path() {
    let p = local_path_for_request("/docs/index.html").unwrap();
    assert_eq!(segs(&p), vec!["docs", "index.html"]);
}

#[test]
fn resolves_root() {
    let p = local_path_for_request("/").unwrap();
    assert!(p.segments.is_empty());
}

#[test]
fn strips_query() {
    let p = local_path_for_request("/a.txt?x=1").unwrap();
    assert_eq!(segs(&p), vec!["a.txt"]);
}

#[test]
fn decodes_percent_escapes() {
    let p = local_path_for_request("/a%20b/c%2Fd").unwrap();
    assert_eq!(segs(&p), vec!["a b", "c", "d"]);
}

#[test]
fn parent_components_stay_below_root() {
    let p = local_path_for_request("/a/../../b/./c//d").unwrap();
    assert_eq!(segs(&p), vec!["b", "c", "d"]);
    let q = local_path_for_request("/%2e%2e/%2e%2e/etc").unwrap();
    assert_eq!(segs(&q), vec!["etc"]);
}

#[test]
fn rejects_non_utf8() {
    assert_eq!(local_path_for_request("/%FF").err(), Some(Error::UriNotUtf8));
}

#[test]
fn rejects_relative_path() {
    assert_eq!(local_path_for_request("a.txt").err(), Some(Error::UriNotAbsolute));
    assert_eq!(local_path_for_request("").err(), Some(Error::UriNotAbsolute));
}

#[test]
fn extension_of_names() {
    assert_eq!(file_ext("a.txt"), Some("txt".to_string()));
    assert_eq!(file_ext("a.tar.gz"), Some("gz".to_string()));
    assert_eq!(file_ext(".gitignore"), None);
    assert_eq!(file_ext("Makefile"), None);
    assert_eq!(file_ext("a."), Some(String::new()));
}

#[test]
fn mime_is_guessed_from_extension() {
    assert_eq!(file_path_mime(&lp(&["x.html"])), "text/html");
    assert_eq!(file_path_mime(&lp(&["a", "b.png"])), "image/png");
    assert_eq!(file_path_mime(&lp(&["noext"])), "application/octet-stream");
    assert_eq!(file_path_mime(&lp(&[])), "application/octet-stream");
}

#[test]
fn file_response_headers() {
    let r = respond_with_file(&lp(&["a.txt"]), Ok(42)).unwrap();
    assert_eq!(r.status, 200);
    assert_eq!(r.headers, vec![
        ("content-length".to_string(), "42".to_string()),
        ("content-type".to_string(), "text/plain".to_string()),
    ]);
    assert_eq!(respond_with_file(&lp(&["a.txt"]), Err(io(IoKind::NotFound, "gone"))).err(), Some(Error::Io(io(IoKind::NotFound, "gone"))));
}

#[test]
fn redirect_only_without_slash() {
    assert!(needs_redirect_check("/docs"));
    assert!(!needs_redirect_check("/docs/"));
    assert!(try_dir_redirect("/docs/", None, true).is_none());
    assert!(try_dir_redirect("/docs", None, false).is_none());
    let r = try_dir_redirect("/docs", Some("a=b"), true).unwrap();
    assert_eq!(r.status, 302);
    assert_eq!(r.headers, vec![("location".to_string(), "/docs/?a=b".to_string())]);
}

#[test]
fn method_check() {
    assert!(handle_unsupported_request("GET").is_none());
    let r = handle_unsupported_request("DELETE").unwrap().unwrap();
    assert_eq!(r.status, 405);
    assert_eq!(r.headers[0], ("allow".to_string(), "GET".to_string()));
}

#[test]
fn text_files_are_recognised() {
    assert!(is_text_file("/src/main.rs"));
    assert!(is_text_file("/LICENSE"));
    assert!(is_text_file("/x/Cargo.lock"));
    assert!(is_text_file("/Makefile"));
    assert!(is_text_file("/.gitignore"));
    assert!(!is_text_file("/index.html"));
    assert!(!is_text_file("/a.txt"));
    assert!(!is_text_file("/dir/"));
}

#[test]
fn content_type_is_replaced() {
    let mut r = respond_with_file(&lp(&["main.rs"]), Ok(3)).unwrap();
    maybe_convert_mime_type_to_text("/main.rs", &mut r);
    assert_eq!(r.headers[1], ("content-type".to_string(), "text/plain".to_string()));
    assert_eq!(r.headers.len(), 2);
    let mut e = Response { status: 302, headers: vec![], body: Body::Empty };
    maybe_convert_mime_type_to_text("/main.rs", &mut e);
    assert_eq!(e.headers, vec![("content-type".to_string(), "text/plain".to_string())]);
    let mut k = respond_with_file(&lp(&["a.png"]), Ok(3)).unwrap();
    maybe_convert_mime_type_to_text("/a.png", &mut k);
    assert_eq!(k.headers[1].1, "image/png");
}

#[test]
fn encodes_link_paths() {
    assert_eq!(percent_encode_path("a b#c?d{e}`f\"g<h>"), "a%20b%23c%3Fd%7Be%7D%60f%22g%3Ch%3E");
    assert_eq!(percent_encode_path("caf\u{e9}"), "caf%C3%A9");
    assert_eq!(percent_encode_path("plain/path-1.txt"), "plain/path-1.txt");
    assert_eq!(percent_encode_path("50%"), "50%");
}

#[test]
fn encoding_round_trips() {
    for s in ["a b", "docs/x y#1?.md", "caf\u{e9}/\u{1f600}", "{}`<>\"", "100% sure", ""] {
        assert_eq!(decode(&percent_encode_path(s)), s);
    }
}

#[test]
fn listing_body() {
    let names = vec!["..".to_string(), "a b.txt".to_string()];
    let body = make_dir_list_body(&lp(&["d"]), &names);
    assert_eq!(
        body,
        "<div>\n<div><a href='/d/..'>..</a></div>\n<div><a href='/d/a%20b.txt'>a b.txt</a></div>\n</div>\n"
    );
}

#[test]
fn listing_skips_names_that_are_not_text() {
    let r = list_dir(&lp(&[]), vec![Some("z".to_string()), None, Some("a".to_string())]).unwrap();
    let body = match &r.body {
        Body::Text(s) => s.clone(),
        _ => panic!("no body"),
    };
    let a = body.find("href='/a'").unwrap();
    let z = body.find("href='/z'").unwrap();
    assert!(body.find("href='/..'").unwrap() < a && a < z);
    assert_eq!(body.matches("<a href").count(), 3);
}

#[test]
fn names_are_sorted() {
    let v = vec!["b".to_string(), "B".to_string(), "a".to_string(), "ab".to_string(), "a".to_string()];
    assert_eq!(sort_names(v), vec!["B", "a", "a", "ab", "b"]);
    assert!(sort_names(vec![]).is_empty());
}

#[test]
fn markdown_rendering() {
    let r = md_path_to_html(Ok(b"# Hi\n\n~~x~~".to_vec())).unwrap();
    let body = match &r.body {
        Body::Text(s) => s.clone(),
        _ => panic!("no body"),
    };
    assert!(body.contains("<h1 id=\"user-content-hi\">"));
    assert!(body.contains("<del>x</del>"));
    assert_eq!(md_path_to_html(Ok(vec![0xc3])).err(), Some(Error::MarkdownUtf8));
    assert_eq!(md_path_to_html(Err(io(IoKind::Other, "denied"))).err(), Some(Error::Io(io(IoKind::Other, "denied"))));
}

#[test]
fn page_rendering() {
    let page = render_html("T<", "<b>x</b>").unwrap();
    assert!(page.contains("<b>x</b>"));
    assert!(page.contains("T&lt;"));
}

#[test]
fn numbers_and_titles() {
    assert_eq!(decimal_string(0), "0");
    assert_eq!(decimal_string(1234567), "1234567");
    assert_eq!(status_title_string(404), "404 Not Found");
    assert_eq!(status_title_string(500), "500 Internal Server Error");
    assert_eq!(status_title_string(299), "299");
}

#[test]
fn errors_become_responses() {
    let r = transform_error(Err(Error::Io(io(IoKind::NotFound, "gone"))));
    assert_eq!(r.status, 404);
    let r = transform_error(Err(Error::Io(io(IoKind::Other, "denied"))));
    assert_eq!(r.status, 500);
    let r = transform_error(Err(Error::UriNotAbsolute));
    assert_eq!(r.status, 500);
    let ok = Response { status: 201, headers: vec![], body: Body::Empty };
    assert_eq!(transform_error(Ok(ok)).status, 201);
}

#[test]
fn error_descriptions() {
    assert_eq!(Error::MarkdownUtf8.describe(), "markdown is not UTF-8");
    assert_eq!(Error::Io(io(IoKind::NotFound, "gone")).status_code(), 404);
    assert_eq!(
        log_error_chain(&Error::Io(io(IoKind::Other, "permission denied"))),
        vec!["error: I/O error".to_string(), "caused by: permission denied".to_string()]
    );
    assert_eq!(Error::TemplateRender.status_code(), 500);
    assert_eq!(log_error_chain(&Error::UriNotUtf8), vec!["error: requested URI is not UTF-8".to_string()]);
}

#[test]
fn text_equality() {
    assert!(str_eq("GET", "GET"));
    assert!(!str_eq("GET", "GEt"));
    assert!(!str_eq("GET", "GETS"));
}

#[test]
fn encoding_matches_fragment_path_set() {
    let mut all = String::new();
    for c in 0u8..=127 {
        all.push(c as char);
    }
    all.push_str("\u{e9}\u{2603}\u{1f600}");
    for s in [all.as_str(), "docs/a b.md", "x%41", "\u{7f}\t\n"] {
        assert_eq!(percent_encode_path(s), utf8_percent_encode(s, PATH).to_string());
    }
}

#[test]
fn listing_link_leads_back_to_entry() {
    let dir = lp(&["a b"]);
    let body = make_dir_list_body(&dir, &vec!["c#d?.md".to_string()]);
    let start = body.find("href='").unwrap() + 6;
    let end = start + body[start..].find('\'').unwrap();
    let href = &body[start..end];
    assert_eq!(href, "/a%20b/c%23d%3F.md");
    let back = local_path_for_request(href).unwrap();
    assert_eq!(segs(&back), vec!["a b", "c#d?.md"]);
}

#[test]
fn content_type_duplicates_collapse() {
    let mut r = Response {
        status: 200,
        headers: vec![
            ("Content-Type".to_string(), "text/x-rust".to_string()),
            ("content-length".to_string(), "3".to_string()),
            ("CONTENT-TYPE".to_string(), "text/other".to_string()),
        ],
        body: Body::File,
    };
    maybe_convert_mime_type_to_text("/main.rs", &mut r);
    assert_eq!(r.headers, vec![
        ("content-type".to_string(), "text/plain".to_string()),
        ("content-length".to_string(), "3".to_string()),
    ]);
}

#[test]
fn header_names_ignore_case() {
    assert!(same_name_exec("Content-Type", "content-type"));
    assert!(!same_name_exec("content-types", "content-type"));
    assert!(!same_name_exec("content_type", "content-type"));
}
