//! The library's error type.
use vstd::prelude::*;
use vstd::string::*;

verus! {

/// What kind of I/O failure happened; only a missing file is told apart.
#[derive(Debug, Clone, Copy, PartialEq, Eq, Structural)]
pub enum IoKind {
    NotFound,
    Other,
}

/// A failed file-system operation: its kind, and the system's description
/// of it.
#[derive(Debug, PartialEq, Eq)]
pub struct IoError {
    pub kind: IoKind,
    pub message: String,
}

/// The ways a request can fail.
#[derive(Debug, PartialEq, Eq)]
pub enum Error {
    /// A response could not be built.
    Http,
    /// The HTTP connection failed.
    Hyper,
    /// A file-system operation failed.
    Io(IoError),
    /// The listen address could not be parsed.
    AddrParse,
    /// A markdown file is not UTF-8.
    MarkdownUtf8,
    /// A listed entry does not lie under the root directory.
    StripPrefixInDirList,
    /// The page template could not be rendered.
    TemplateRender,
    /// The decoded request path does not start with `/`.
    UriNotAbsolute,
    /// The decoded request path is not UTF-8.
    UriNotUtf8,
    /// A directory listing could not be written.
    WriteInDirList,
}

/// The one-line description of an error.
pub open spec fn error_text(e: Error) -> Seq<char> {
    match e {
        Error::Http => "HTTP error"@,
        Error::Hyper => "Hyper error"@,
        Error::Io(_) => "I/O error"@,
        Error::AddrParse => "failed to parse IP address"@,
        Error::MarkdownUtf8 => "markdown is not UTF-8"@,
        Error::StripPrefixInDirList => "failed to strip prefix in directory listing"@,
        Error::TemplateRender => "failed to render template"@,
        Error::UriNotAbsolute => "requested URI is not an absolute path"@,
        Error::UriNotUtf8 => "requested URI is not UTF-8"@,
        Error::WriteInDirList => "formatting error while creating directory listing"@,
    }
}

/// The HTTP status that an error is answered with: 404 for a missing file,
/// 500 for everything else.
pub open spec fn error_status(e: Error) -> u16 {
    match e {
        Error::Io(io) => if io.kind == IoKind::NotFound {
            404
        } else {
            500
        },
        _ => 500,
    }
}

/// Whether an error is a missing file.
pub open spec fn is_not_found(e: Error) -> bool {
    e matches Error::Io(io) && io.kind == IoKind::NotFound
}

impl Error {
    /// A one-line description of the error.
    pub fn describe(&self) -> (r: String)
        ensures
            r@ == error_text(*self),
    {
        match self {
            Error::Http => String::from_str("HTTP error"),
            Error::Hyper => String::from_str("Hyper error"),
            Error::Io(_) => String::from_str("I/O error"),
            Error::AddrParse => String::from_str("failed to parse IP address"),
            Error::MarkdownUtf8 => String::from_str("markdown is not UTF-8"),
            Error::StripPrefixInDirList => String::from_str(
                "failed to strip prefix in directory listing",
            ),
            Error::TemplateRender => String::from_str("failed to render template"),
            Error::UriNotAbsolute => String::from_str("requested URI is not an absolute path"),
            Error::UriNotUtf8 => String::from_str("requested URI is not UTF-8"),
            Error::WriteInDirList => String::from_str(
                "formatting error while creating directory listing",
            ),
        }
    }

    /// The HTTP status code this error is answered with.
    pub fn status_code(&self) -> (r: u16)
        ensures
            r == error_status(*self),
    {
        match self {
            Error::Io(io) => match io.kind {
                IoKind::NotFound => 404,
                IoKind::Other => 500,
            },
            _ => 500,
        }
    }

    /// Whether this is a missing file.
    pub fn not_found(&self) -> (r: bool)
        ensures
            r == is_not_found(*self),
    {
        match self {
            Error::Io(io) => match io.kind {
                IoKind::NotFound => true,
                IoKind::Other => false,
            },
            _ => false,
        }
    }
}

} // verus!
