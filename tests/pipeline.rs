use basic_http_server::error::{IoError, IoKind};
use basic_http_server::pipeline::{answer_fits, resume, start, Answer, Config, Next, Request, Want};
use basic_http_server::response::{Body, Response};
use basic_http_server::serve::transform_error;

/// A file system held in memory: files with their contents, and directories.
struct Fs {
    files: Vec<(String, Vec<u8>)>,
    dirs: Vec<String>,
}

fn missing() -> IoError {
    IoError { kind: IoKind::NotFound, message: "No such file or directory".to_string() }
}

fn key(segments: &[String]) -> String {
    segments.join("/")
}

impl Fs {
    fn file(&self, k: &str) -> Option<&Vec<u8>> {
        self.files.iter().find(|(p, _)| p == k).map(|(_, c)| c)
    }

    fn is_dir(&self, k: &str) -> bool {
        self.dirs.iter().any(|d| d == k)
    }

    fn answer(&self, want: &Want) -> Answer {
        match want {
            Want::IsDir(p) => Answer::IsDir(self.is_dir(&key(&p.segments))),
            Want::Open(p) => Answer::Opened(match self.file(&key(&p.segments)) {
                Some(c) => Ok(c.len() as u64),
                None => Err(missing()),
            }),
            Want::Read(p) => Answer::Read(match self.file(&key(&p.segments)) {
                Some(c) => Ok(c.clone()),
                None => Err(missing()),
            }),
            Want::Meta(p) => {
                let k = key(&p.segments);
                if self.is_dir(&k) {
                    Answer::Meta(Ok(true))
                } else if self.file(&k).is_some() {
                    Answer::Meta(Ok(false))
                } else {
                    Answer::Meta(Err(missing()))
                }
            }
            Want::ListDir(p) => {
                let k = key(&p.segments);
                let prefix = if k.is_empty() { String::new() } else { format!("{k}/") };
                let mut names: Vec<Option<String>> = Vec::new();
                for (f, _) in &self.files {
                    if let Some(rest) = f.strip_prefix(&prefix) {
                        if !rest.contains('/') {
                            names.push(Some(rest.to_string()));
                        }
                    }
                }
                for d in &self.dirs {
                    if let Some(rest) = d.strip_prefix(&prefix) {
                        if !rest.is_empty() && !rest.contains('/') {
                            names.push(Some(rest.to_string()));
                        }
                    }
                }
                Answer::Listed(Ok(names))
            }
        }
    }
}

fn run(fs: &Fs, method: &str, path: &str, query: Option<&str>, use_extensions: bool) -> (Response, Vec<String>) {
    let config = Config { use_extensions };
    let req = Request {
        method: method.to_string(),
        path: path.to_string(),
        query: query.map(|q| q.to_string()),
    };
    let mut opened: Vec<String> = Vec::new();
    let mut next = start(&config, &req);
    loop {
        match next {
            Next::Done(r) => return (transform_error(r), opened),
            Next::Ask(ex, want) => {
                if let Want::Open(p) | Want::Read(p) = &want {
                    opened.push(key(&p.segments));
                }
                let answer = fs.answer(&want);
                assert!(answer_fits(&ex, &answer));
                next = resume(ex, answer);
            }
        }
    }
}

fn header<'a>(r: &'a Response, name: &str) -> Option<&'a str> {
    r.headers.iter().find(|(n, _)| n == name).map(|(_, v)| v.as_str())
}

fn text(r: &Response) -> &str {
    match &r.body {
        Body::Text(s) => s.as_str(),
        _ => panic!("no text body"),
    }
}

fn sample() -> Fs {
    Fs {
        files: vec![
            ("a.txt".to_string(), b"hello".to_vec()),
            ("docs/index.html".to_string(), b"<p>docs</p>".to_vec()),
            ("notes.md".to_string(), b"# Hi".to_vec()),
            ("bad.md".to_string(), vec![0xff, 0xfe]),
            ("src/main.rs".to_string(), b"fn main() {}".to_vec()),
            ("empty/b.txt".to_string(), b"b".to_vec()),
        ],
        dirs: vec![String::new(), "docs".to_string(), "src".to_string(), "empty".to_string()],
    }
}

#[test]
fn text_file_is_served() {
    let (r, opened) = run(&sample(), "GET", "/a.txt", None, true);
    assert_eq!(r.status, 200);
    assert_eq!(header(&r, "content-type"), Some("text/plain"));
    assert_eq!(header(&r, "content-length"), Some("5"));
    assert!(matches!(r.body, Body::File));
    assert_eq!(opened, vec!["a.txt".to_string()]);
}

#[test]
fn directory_without_slash_redirects() {
    let (r, opened) = run(&sample(), "GET", "/docs", None, true);
    assert_eq!(r.status, 302);
    assert_eq!(header(&r, "location"), Some("/docs/"));
    assert!(matches!(r.body, Body::Empty));
    assert!(opened.is_empty());
}

#[test]
fn redirect_keeps_query() {
    let (r, _) = run(&sample(), "GET", "/docs", Some("x=1"), false);
    assert_eq!(r.status, 302);
    assert_eq!(header(&r, "location"), Some("/docs/?x=1"));
}

#[test]
fn directory_with_slash_serves_index() {
    let (r, opened) = run(&sample(), "GET", "/docs/", None, true);
    assert_eq!(r.status, 200);
    assert_eq!(header(&r, "content-type"), Some("text/html"));
    assert_eq!(header(&r, "content-length"), Some("11"));
    assert!(matches!(r.body, Body::File));
    assert_eq!(opened, vec!["docs/index.html".to_string()]);
}

#[test]
fn markdown_is_rendered() {
    let (r, _) = run(&sample(), "GET", "/notes.md", None, true);
    assert_eq!(r.status, 200);
    assert_eq!(header(&r, "content-type"), Some("text/html"));
    assert!(text(&r).contains("<h1 id=\"user-content-hi\">"));
    let len: usize = header(&r, "content-length").unwrap().parse().unwrap();
    assert_eq!(len, text(&r).len());
}

#[test]
fn markdown_without_extensions_is_a_file() {
    let (r, _) = run(&sample(), "GET", "/notes.md", None, false);
    assert_eq!(r.status, 200);
    assert!(matches!(r.body, Body::File));
}

#[test]
fn markdown_not_utf8_is_an_internal_error() {
    let (r, _) = run(&sample(), "GET", "/bad.md", None, true);
    assert_eq!(r.status, 500);
    assert!(text(&r).contains("500 Internal Server Error"));
}

#[test]
fn missing_file_is_not_found() {
    let (r, _) = run(&sample(), "GET", "/missing", None, true);
    assert_eq!(r.status, 404);
    assert!(text(&r).contains("404 Not Found"));
    assert_eq!(header(&r, "content-type"), Some("text/html"));
}

#[test]
fn missing_file_without_extensions_is_not_found() {
    let (r, _) = run(&sample(), "GET", "/missing", None, false);
    assert_eq!(r.status, 404);
}

#[test]
fn post_is_not_allowed() {
    let (r, opened) = run(&sample(), "POST", "/a.txt", None, true);
    assert_eq!(r.status, 405);
    assert_eq!(header(&r, "allow"), Some("GET"));
    assert!(text(&r).contains("405 Method Not Allowed"));
    assert!(opened.is_empty());
}

#[test]
fn directory_without_index_is_listed() {
    let (r, _) = run(&sample(), "GET", "/empty/", None, true);
    assert_eq!(r.status, 200);
    let body = text(&r);
    assert!(body.contains("<div><a href='/empty/..'>..</a></div>"));
    assert!(body.contains("<div><a href='/empty/b.txt'>b.txt</a></div>"));
}

#[test]
fn root_listing_is_sorted() {
    let (r, _) = run(&sample(), "GET", "/", None, true);
    assert_eq!(r.status, 200);
    let body = text(&r);
    let a = body.find("href='/a.txt'").unwrap();
    let d = body.find("href='/docs'").unwrap();
    let n = body.find("href='/notes.md'").unwrap();
    let up = body.find("href='/..'").unwrap();
    assert!(up < a && a < d && d < n);
}

#[test]
fn source_file_is_plain_text() {
    let (r, _) = run(&sample(), "GET", "/src/main.rs", None, true);
    assert_eq!(r.status, 200);
    assert_eq!(header(&r, "content-type"), Some("text/plain"));
    let count = r.headers.iter().filter(|(n, _)| n == "content-type").count();
    assert_eq!(count, 1);
}

#[test]
fn source_file_without_extensions_keeps_guessed_type() {
    let (r, _) = run(&sample(), "GET", "/src/main.rs", None, false);
    assert_ne!(header(&r, "content-type"), Some("text/plain"));
}

#[test]
fn bad_encoding_is_an_internal_error() {
    let (r, _) = run(&sample(), "GET", "/%FF", None, true);
    assert_eq!(r.status, 500);
}

#[test]
fn repeated_request_is_identical() {
    let fs = sample();
    for path in ["/a.txt", "/docs", "/notes.md", "/", "/missing"] {
        let (r1, o1) = run(&fs, "GET", path, None, true);
        let (r2, o2) = run(&fs, "GET", path, None, true);
        assert_eq!(r1.status, r2.status);
        assert_eq!(r1.headers, r2.headers);
        assert_eq!(o1, o2);
        match (&r1.body, &r2.body) {
            (Body::Text(a), Body::Text(b)) => assert_eq!(a, b),
            (Body::File, Body::File) | (Body::Empty, Body::Empty) => {}
            _ => panic!("bodies differ"),
        }
    }
}

fn md_dir_fs() -> Fs {
    Fs {
        files: vec![("x.md/index.html".to_string(), b"<p>x</p>".to_vec())],
        dirs: vec![String::new(), "x.md".to_string(), "y.md".to_string()],
    }
}

#[test]
fn markdown_named_directory_redirects() {
    let (r, opened) = run(&md_dir_fs(), "GET", "/x.md", None, true);
    assert_eq!(r.status, 302);
    assert_eq!(header(&r, "location"), Some("/x.md/"));
    assert!(opened.is_empty());
}

#[test]
fn markdown_named_directory_serves_index() {
    let (r, opened) = run(&md_dir_fs(), "GET", "/x.md/", None, true);
    assert_eq!(r.status, 200);
    assert!(matches!(r.body, Body::File));
    assert_eq!(opened, vec!["x.md/index.html".to_string()]);
}

#[test]
fn markdown_named_directory_without_index_is_listed() {
    let (r, _) = run(&md_dir_fs(), "GET", "/y.md/", None, true);
    assert_eq!(r.status, 200);
    assert!(text(&r).contains("href='/y.md/..'"));
}
