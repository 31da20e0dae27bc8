//! Serving files: the method check, the directory redirect, the file
//! response, and turning errors into error pages.
use crate::error::{error_status, error_text, Error, IoError};
use crate::path::{path_ext, LocalPath};
use crate::response::{
    decimal, decimal_string, error_page_response, headers_view, make_error_response_from_code,
    make_error_response_from_code_and_headers, Body, BodyView, Response, ResponseView,
};
use crate::text::{ends_with_slash, ends_with_slash_exec, str_eq};
use vstd::prelude::*;
use vstd::string::*;

verus! {

/// The `allow` header sent with a 405 response.
pub open spec fn allow_get() -> Seq<(Seq<char>, Seq<char>)> {
    seq![("allow"@, "GET"@)]
}

/// Answers every method but `GET` with a 405 page carrying `allow: GET`;
/// `None` for `GET`.
pub fn handle_unsupported_request(method: &str) -> (r: Option<Result<Response, Error>>)
    ensures
        r.is_none() <==> method@ == "GET"@,
        r matches Some(x) ==> match x {
            Ok(resp) => error_page_response(405, allow_get()) == Ok::<ResponseView, Error>(resp@),
            Err(e) => error_page_response(405, allow_get()) == Err::<ResponseView, Error>(e),
        },
{
    if str_eq(method, "GET") {
        return None;
    }
    let mut headers: Vec<(String, String)> = Vec::new();
    headers.push((String::from_str("allow"), String::from_str("GET")));
    assert(headers_view(headers@) =~= allow_get());
    Some(make_error_response_from_code_and_headers(405, headers))
}

/// The `location` of a directory redirect: the request path with a `/`
/// added, then the query string, if any.
pub open spec fn redirect_location(path: Seq<char>, query: Option<Seq<char>>) -> Seq<char> {
    match query {
        Some(q) => path + "/"@ + "?"@ + q,
        None => path + "/"@,
    }
}

/// The 302 response that sends a directory path to its form with a
/// trailing `/`.
pub open spec fn redirect_response(path: Seq<char>, query: Option<Seq<char>>) -> ResponseView {
    ResponseView {
        status: 302,
        headers: seq![("location"@, redirect_location(path, query))],
        body: BodyView::Empty,
    }
}

/// Whether a request path calls for the directory test that may redirect
/// it: only one without a trailing `/` does.
pub fn needs_redirect_check(uri_path: &str) -> (r: bool)
    ensures
        r == !ends_with_slash(uri_path@),
{
    !ends_with_slash_exec(uri_path)
}

/// Redirects a request path without a trailing `/` that names a directory
/// to the same path with the `/`, keeping the query string.
pub fn try_dir_redirect(uri_path: &str, query: Option<&str>, is_dir: bool) -> (r: Option<Response>)
    ensures
        r.is_some() <==> (!ends_with_slash(uri_path@) && is_dir),
        r matches Some(resp) ==> resp@ == redirect_response(
            uri_path@,
            match query {
                Some(q) => Some(q@),
                None => None,
            },
        ),
{
    if ends_with_slash_exec(uri_path) || !is_dir {
        return None;
    }
    Some(make_redirect(uri_path, query))
}

/// The 302 response to the request path with a `/` added, keeping the
/// query string.
pub fn make_redirect(uri_path: &str, query: Option<&str>) -> (r: Response)
    ensures
        r@ == redirect_response(
            uri_path@,
            match query {
                Some(q) => Some(q@),
                None => None,
            },
        ),
{
    let mut loc = uri_path.to_owned();
    loc.append("/");
    match query {
        Some(q) => {
            loc.append("?");
            loc.append(q);
        },
        None => {},
    }
    let mut headers: Vec<(String, String)> = Vec::new();
    let name = String::from_str("location");
    headers.push((name, loc));
    let r = Response { status: 302, headers, body: Body::Empty };
    assert(r@.headers =~= seq![("location"@, loc@)]);
    r
}

/// The path that is served for a request: a directory's `index.html`.
pub fn local_path_with_maybe_index(path: &LocalPath, is_dir: bool) -> (r: LocalPath)
    ensures
        r@ == if is_dir { path@.push("index.html"@) } else { path@ },
{
    if is_dir {
        path.with_index()
    } else {
        let segments = path.segments.clone();
        let r = LocalPath { segments };
        assert(r@ =~= path@);
        r
    }
}

/// The MIME type that is guessed from a file extension.
pub uninterp spec fn mime_for_ext(ext: Seq<char>) -> Seq<char>;

/// Relies on mime_guess::from_ext and MimeGuess::first_or_octet_stream: the
/// first MIME type known for the extension, `application/octet-stream` where
/// none is; the result depends on the extension alone.
#[verifier::external_body]
fn guess_mime(ext: &str) -> (r: String)
    ensures
        r@ == mime_for_ext(ext@),
        ext@.len() == 0 ==> r@ == "application/octet-stream"@,
{
    mime_guess::from_ext(ext).first_or_octet_stream().as_ref().to_string()
}

/// The extension a MIME type is guessed from: none gives the empty text.
pub open spec fn ext_or_empty(p: Seq<Seq<char>>) -> Seq<char> {
    match path_ext(p) {
        Some(e) => e,
        None => seq![],
    }
}

/// The MIME type of a local path, guessed from its extension.
pub fn file_path_mime(path: &LocalPath) -> (r: String)
    ensures
        r@ == mime_for_ext(ext_or_empty(path@)),
{
    match path.extension() {
        Some(e) => guess_mime(e.as_str()),
        None => {
            let empty = String::new();
            guess_mime(empty.as_str())
        },
    }
}

/// The 200 response that streams a file of `len` bytes.
pub open spec fn file_response(p: Seq<Seq<char>>, len: u64) -> ResponseView {
    ResponseView {
        status: 200,
        headers: seq![
            ("content-length"@, decimal(len as nat)),
            ("content-type"@, mime_for_ext(ext_or_empty(p))),
        ],
        body: BodyView::File,
    }
}

/// The response for a file, given the outcome of opening it: its length,
/// or the kind of I/O failure, which is passed on unchanged.
pub fn respond_with_file(path: &LocalPath, opened: Result<u64, IoError>) -> (r: Result<Response, Error>)
    ensures
        match opened {
            Ok(len) => r matches Ok(resp) && resp@ == file_response(path@, len),
            Err(k) => r == Err::<Response, Error>(Error::Io(k)),
        },
{
    let mime = file_path_mime(path);
    match opened {
        Ok(len) => {
            let mut headers: Vec<(String, String)> = Vec::new();
            headers.push((String::from_str("content-length"), decimal_string(len)));
            headers.push((String::from_str("content-type"), mime));
            let r = Response { status: 200, headers, body: Body::File };
            assert(r@.headers =~= file_response(path@, len).headers);
            Ok(r)
        },
        Err(k) => Err(Error::Io(k)),
    }
}

/// The text of the last-resort response, sent when even the error page
/// cannot be built.
pub open spec fn last_resort_text(e: Error) -> Seq<char> {
    "unexpected internal error: "@ + error_text(e)
}

/// The response that a failure is answered with: the error page for its
/// status, or else a plain last-resort text.
pub open spec fn error_response(e: Error) -> ResponseView {
    match error_page_response(error_status(e), seq![]) {
        Ok(resp) => resp,
        Err(e2) => ResponseView {
            status: 200,
            headers: seq![],
            body: BodyView::Text(last_resort_text(e2)),
        },
    }
}

/// Turns an error into an HTTP error response; a response passes unchanged.
pub fn transform_error(resp: Result<Response, Error>) -> (r: Response)
    ensures
        match resp {
            Ok(x) => r@ == x@,
            Err(e) => r@ == error_response(e),
        },
{
    match resp {
        Ok(x) => x,
        Err(e) => match make_error_response_from_code(e.status_code()) {
            Ok(x) => x,
            Err(e2) => {
                let mut text = String::from_str("unexpected internal error: ");
                let d = e2.describe();
                text.append(d.as_str());
                let r = Response { status: 200, headers: Vec::new(), body: Body::Text(text) };
                assert(r@.headers =~= seq![]);
                r
            },
        },
    }
}

/// The lines logged for an error: the error, then its cause, which for a
/// file-system failure is the system's description of it.
pub open spec fn error_chain(e: Error) -> Seq<Seq<char>> {
    match e {
        Error::Io(io) => seq!["error: "@ + error_text(e), "caused by: "@ + io.message@],
        _ => seq!["error: "@ + error_text(e)],
    }
}

/// The lines logged for an error: the error, then each of its causes.
pub fn log_error_chain(e: &Error) -> (r: Vec<String>)
    ensures
        r@.map_values(|s: String| s@) == error_chain(*e),
{
    let mut line = String::from_str("error: ");
    let d = e.describe();
    line.append(d.as_str());
    let mut r: Vec<String> = Vec::new();
    r.push(line);
    match e {
        Error::Io(io) => {
            let mut cause = String::from_str("caused by: ");
            cause.append(io.message.as_str());
            r.push(cause);
        },
        _ => {},
    }
    assert(r@.map_values(|s: String| s@) =~= error_chain(*e));
    r
}

} // verus!
