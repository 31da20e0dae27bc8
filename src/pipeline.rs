//! The request pipeline as a state machine: each step either answers the
//! request or asks the file system one question and waits for the answer.
use crate::error::{is_not_found, Error, IoError};
use crate::ext::{
    entries_view, list_dir, listing_response, markdown_response, maybe_convert_mime_type_to_text,
    md_path_to_html, text_override,
};
use crate::path::{local_path_for_request, path_ext, request_target, LocalPath};
use crate::response::{error_page_response, Response, ResponseView};
use crate::serve::{
    allow_get, file_response, handle_unsupported_request,
    local_path_with_maybe_index, redirect_response, respond_with_file,
    make_redirect,
};
use crate::text::{ends_with_slash, ends_with_slash_exec, str_eq};
use vstd::prelude::*;
use vstd::string::*;

verus! {

/// The server's configuration as the pipeline reads it: whether the
/// extensions run. (The root directory is where the caller answers the
/// pipeline's questions.)
pub struct Config {
    pub use_extensions: bool,
}

/// An HTTP request: its method, path and query string.
pub struct Request {
    pub method: String,
    pub path: String,
    pub query: Option<String>,
}

/// Where a request stands while it waits for the file system.
pub enum Phase {
    /// Whether the path is a directory, to redirect it.
    Redirect,
    /// Whether the path is a directory, to serve its `index.html`.
    Index,
    /// Opening the file at this path; whether the request's path was found
    /// to be a directory.
    Open(LocalPath, bool),
    /// Reading a markdown file.
    Markdown,
    /// Whether a missing file's path is a directory to list; the error to
    /// answer with where it is not.
    Meta(Error),
    /// Reading the directory's entries.
    List,
}

/// A request under way.
pub struct Exchange {
    pub use_extensions: bool,
    pub path: String,
    pub query: Option<String>,
    pub target: LocalPath,
    pub phase: Phase,
}

/// A question for the file system.
pub enum Want {
    /// Is this a directory? (No, where it cannot be examined.)
    IsDir(LocalPath),
    /// Open this file: its length, or the failure.
    Open(LocalPath),
    /// Read this whole file.
    Read(LocalPath),
    /// Examine this path: whether it is a directory, or the failure.
    Meta(LocalPath),
    /// Read this directory's entries.
    ListDir(LocalPath),
}

/// The file system's answer to a `Want`.
pub enum Answer {
    IsDir(bool),
    Opened(Result<u64, IoError>),
    Read(Result<Vec<u8>, IoError>),
    Meta(Result<bool, IoError>),
    Listed(Result<Vec<Option<String>>, IoError>),
}

/// What happens next: a question with the request's new state, or the
/// outcome, which `transform_error` turns into the response.
pub enum Next {
    Ask(Exchange, Want),
    Done(Result<Response, Error>),
}

pub enum PhaseView {
    Redirect,
    Index,
    Open(Seq<Seq<char>>, bool),
    Markdown,
    Meta(Error),
    List,
}

pub struct ExchangeView {
    pub use_extensions: bool,
    pub path: Seq<char>,
    pub query: Option<Seq<char>>,
    pub target: Seq<Seq<char>>,
    pub phase: PhaseView,
}

pub enum WantView {
    IsDir(Seq<Seq<char>>),
    Open(Seq<Seq<char>>),
    Read(Seq<Seq<char>>),
    Meta(Seq<Seq<char>>),
    ListDir(Seq<Seq<char>>),
}

pub enum AnswerView {
    IsDir(bool),
    Opened(Result<u64, IoError>),
    Read(Result<Seq<u8>, IoError>),
    Meta(Result<bool, IoError>),
    Listed(Result<Seq<Option<Seq<char>>>, IoError>),
}

pub enum NextView {
    Ask(ExchangeView, WantView),
    Done(Result<ResponseView, Error>),
}

pub open spec fn opt_view(q: Option<String>) -> Option<Seq<char>> {
    match q {
        Some(s) => Some(s@),
        None => None,
    }
}

impl View for Phase {
    type V = PhaseView;

    open spec fn view(&self) -> PhaseView {
        match self {
            Phase::Redirect => PhaseView::Redirect,
            Phase::Index => PhaseView::Index,
            Phase::Open(p, d) => PhaseView::Open(p@, *d),
            Phase::Markdown => PhaseView::Markdown,
            Phase::Meta(e) => PhaseView::Meta(*e),
            Phase::List => PhaseView::List,
        }
    }
}

impl View for Exchange {
    type V = ExchangeView;

    open spec fn view(&self) -> ExchangeView {
        ExchangeView {
            use_extensions: self.use_extensions,
            path: self.path@,
            query: opt_view(self.query),
            target: self.target@,
            phase: self.phase@,
        }
    }
}

impl View for Want {
    type V = WantView;

    open spec fn view(&self) -> WantView {
        match self {
            Want::IsDir(p) => WantView::IsDir(p@),
            Want::Open(p) => WantView::Open(p@),
            Want::Read(p) => WantView::Read(p@),
            Want::Meta(p) => WantView::Meta(p@),
            Want::ListDir(p) => WantView::ListDir(p@),
        }
    }
}

impl View for Answer {
    type V = AnswerView;

    open spec fn view(&self) -> AnswerView {
        match self {
            Answer::IsDir(b) => AnswerView::IsDir(*b),
            Answer::Opened(r) => AnswerView::Opened(*r),
            Answer::Read(r) => AnswerView::Read(
                match r {
                    Ok(b) => Ok(b@),
                    Err(k) => Err(*k),
                },
            ),
            Answer::Meta(r) => AnswerView::Meta(*r),
            Answer::Listed(r) => AnswerView::Listed(
                match r {
                    Ok(e) => Ok(entries_view(e@)),
                    Err(k) => Err(*k),
                },
            ),
        }
    }
}

impl View for Next {
    type V = NextView;

    open spec fn view(&self) -> NextView {
        match self {
            Next::Ask(ex, w) => NextView::Ask(ex@, w@),
            Next::Done(r) => NextView::Done(
                match r {
                    Ok(x) => Ok(x@),
                    Err(e) => Err(*e),
                },
            ),
        }
    }
}

/// The same request in another phase.
pub open spec fn in_phase(ex: ExchangeView, phase: PhaseView) -> ExchangeView {
    ExchangeView { phase, ..ex }
}

/// Whether the request names a markdown file.
pub open spec fn is_markdown(target: Seq<Seq<char>>) -> bool {
    path_ext(target) == Some("md"@)
}

/// The extension stage applied to the outcome of serving a file, where
/// `is_dir` tells whether the request's path is a directory: off, it
/// answers with the outcome; on, a markdown file (not a directory) is read
/// and rendered, a response to a source-like file is marked `text/plain`,
/// and a missing file leads to a directory listing where its path is a
/// directory.
pub open spec fn extension_stage(ex: ExchangeView, is_dir: bool, outcome: Result<ResponseView, Error>) -> NextView {
    if !ex.use_extensions {
        NextView::Done(outcome)
    } else if !is_dir && is_markdown(ex.target) {
        NextView::Ask(in_phase(ex, PhaseView::Markdown), WantView::Read(ex.target))
    } else {
        match outcome {
            Ok(r) => NextView::Done(Ok(text_override(ex.path, r))),
            Err(e) => if is_not_found(e) {
                NextView::Ask(in_phase(ex, PhaseView::Meta(e)), WantView::Meta(ex.target))
            } else {
                NextView::Done(Err(e))
            },
        }
    }
}

/// The first step for a request.
pub open spec fn start_step(use_extensions: bool, method: Seq<char>, path: Seq<char>, query: Option<Seq<char>>) -> NextView {
    if method != "GET"@ {
        NextView::Done(error_page_response(405, allow_get()))
    } else {
        match request_target(path) {
            Err(e) => NextView::Done(Err(e)),
            Ok(t) => NextView::Ask(
                ExchangeView {
                    use_extensions,
                    path,
                    query,
                    target: t,
                    phase: if ends_with_slash(path) { PhaseView::Index } else { PhaseView::Redirect },
                },
                WantView::IsDir(t),
            ),
        }
    }
}

/// Whether an answer is of the kind that a phase waits for.
pub open spec fn fits(phase: PhaseView, answer: AnswerView) -> bool {
    match phase {
        PhaseView::Redirect => answer is IsDir,
        PhaseView::Index => answer is IsDir,
        PhaseView::Open(_, _) => answer is Opened,
        PhaseView::Markdown => answer is Read,
        PhaseView::Meta(_) => answer is Meta,
        PhaseView::List => answer is Listed,
    }
}

/// The step that follows an answer.
pub open spec fn resume_step(ex: ExchangeView, answer: AnswerView) -> NextView {
    match (ex.phase, answer) {
        (PhaseView::Redirect, AnswerView::IsDir(d)) => if d {
            NextView::Done(Ok(redirect_response(ex.path, ex.query)))
        } else {
            NextView::Ask(in_phase(ex, PhaseView::Index), WantView::IsDir(ex.target))
        },
        (PhaseView::Index, AnswerView::IsDir(d)) => {
            let p = if d { ex.target.push("index.html"@) } else { ex.target };
            NextView::Ask(in_phase(ex, PhaseView::Open(p, d)), WantView::Open(p))
        },
        (PhaseView::Open(p, d), AnswerView::Opened(o)) => match o {
            Ok(len) => extension_stage(ex, d, Ok(file_response(p, len))),
            Err(k) => extension_stage(ex, d, Err(Error::Io(k))),
        },
        (PhaseView::Markdown, AnswerView::Read(o)) => match o {
            Ok(b) => NextView::Done(markdown_response(b)),
            Err(k) => NextView::Done(Err(Error::Io(k))),
        },
        (PhaseView::Meta(e), AnswerView::Meta(o)) => match o {
            Err(k) => NextView::Done(Err(Error::Io(k))),
            Ok(d) => if d {
                NextView::Ask(in_phase(ex, PhaseView::List), WantView::ListDir(ex.target))
            } else {
                NextView::Done(Err(e))
            },
        },
        (PhaseView::List, AnswerView::Listed(o)) => match o {
            Err(k) => NextView::Done(Err(Error::Io(k))),
            Ok(es) => NextView::Done(listing_response(ex.target, es)),
        },
        _ => NextView::Done(Err(Error::Http)),
    }
}

fn copy_opt(q: &Option<String>) -> (r: Option<String>)
    ensures
        opt_view(r) == opt_view(*q),
{
    match q {
        Some(s) => Some(s.as_str().to_owned()),
        None => None,
    }
}

fn as_opt_str(q: &Option<String>) -> (r: Option<&str>)
    ensures
        match r {
            Some(s) => opt_view(*q) == Some(s@),
            None => opt_view(*q).is_none(),
        },
{
    match q {
        Some(s) => Some(s.as_str()),
        None => None,
    }
}

/// Runs the extension stage on an outcome.
fn extension_step(ex: Exchange, is_dir: bool, outcome: Result<Response, Error>) -> (r: Next)
    ensures
        r@ == extension_stage(
            ex@,
            is_dir,
            match outcome {
                Ok(x) => Ok(x@),
                Err(e) => Err(e),
            },
        ),
{
    if !ex.use_extensions {
        return Next::Done(outcome);
    }
    let md = !is_dir && match ex.target.extension() {
        Some(e) => str_eq(e.as_str(), "md"),
        None => false,
    };
    if md {
        let t = ex.target.duplicate();
        let next = Exchange { phase: Phase::Markdown, ..ex };
        return Next::Ask(next, Want::Read(t));
    }
    match outcome {
        Ok(x) => {
            let mut x = x;
            maybe_convert_mime_type_to_text(ex.path.as_str(), &mut x);
            Next::Done(Ok(x))
        },
        Err(e) => {
            if e.not_found() {
                let t = ex.target.duplicate();
                let next = Exchange { phase: Phase::Meta(e), ..ex };
                Next::Ask(next, Want::Meta(t))
            } else {
                Next::Done(Err(e))
            }
        },
    }
}

/// The first step for a request.
pub fn start(config: &Config, req: &Request) -> (r: Next)
    ensures
        r@ == start_step(config.use_extensions, req.method@, req.path@, opt_view(req.query)),
{
    match handle_unsupported_request(req.method.as_str()) {
        Some(resp) => {
            return Next::Done(resp);
        },
        None => {},
    }
    match local_path_for_request(req.path.as_str()) {
        Err(e) => Next::Done(Err(e)),
        Ok(t) => {
            let phase = if ends_with_slash_exec(req.path.as_str()) {
                Phase::Index
            } else {
                Phase::Redirect
            };
            let w = t.duplicate();
            let ex = Exchange {
                use_extensions: config.use_extensions,
                path: req.path.as_str().to_owned(),
                query: copy_opt(&req.query),
                target: t,
                phase,
            };
            Next::Ask(ex, Want::IsDir(w))
        },
    }
}

/// Whether an answer is of the kind that the request waits for.
pub fn answer_fits(ex: &Exchange, answer: &Answer) -> (r: bool)
    ensures
        r == fits(ex@.phase, answer@),
{
    match (&ex.phase, answer) {
        (Phase::Redirect, Answer::IsDir(_)) => true,
        (Phase::Index, Answer::IsDir(_)) => true,
        (Phase::Open(_, _), Answer::Opened(_)) => true,
        (Phase::Markdown, Answer::Read(_)) => true,
        (Phase::Meta(_), Answer::Meta(_)) => true,
        (Phase::List, Answer::Listed(_)) => true,
        _ => false,
    }
}

/// The step that follows the file system's answer.
pub fn resume(ex: Exchange, answer: Answer) -> (r: Next)
    requires
        fits(ex@.phase, answer@),
    ensures
        r@ == resume_step(ex@, answer@),
{
    match (ex.phase, answer) {
        (Phase::Redirect, Answer::IsDir(d)) => {
            if d {
                Next::Done(Ok(make_redirect(ex.path.as_str(), as_opt_str(&ex.query))))
            } else {
                let w = ex.target.duplicate();
                Next::Ask(Exchange { phase: Phase::Index, ..ex }, Want::IsDir(w))
            }
        },
        (Phase::Index, Answer::IsDir(d)) => {
            let p = local_path_with_maybe_index(&ex.target, d);
            let w = p.duplicate();
            Next::Ask(Exchange { phase: Phase::Open(p, d), ..ex }, Want::Open(w))
        },
        (Phase::Open(p, d), Answer::Opened(o)) => {
            let outcome = respond_with_file(&p, o);
            extension_step(Exchange { phase: Phase::Open(p, d), ..ex }, d, outcome)
        },
        (Phase::Markdown, Answer::Read(o)) => Next::Done(md_path_to_html(o)),
        (Phase::Meta(e), Answer::Meta(o)) => match o {
            Err(k) => Next::Done(Err(Error::Io(k))),
            Ok(d) => {
                if d {
                    let w = ex.target.duplicate();
                    Next::Ask(Exchange { phase: Phase::List, ..ex }, Want::ListDir(w))
                } else {
                    Next::Done(Err(e))
                }
            },
        },
        (Phase::List, Answer::Listed(o)) => match o {
            Err(k) => Next::Done(Err(Error::Io(k))),
            Ok(es) => Next::Done(list_dir(&ex.target, es)),
        },
        _ => Next::Done(Err(Error::Http)),
    }
}

} // verus!
