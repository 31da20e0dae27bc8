//! HTTP responses as plain values, and the responses the server builds.
use crate::codec::push_char;
use crate::error::Error;
use vstd::prelude::*;
use vstd::string::*;

verus! {

/// The body of a response.
pub enum Body {
    /// No body.
    Empty,
    /// A body held in memory.
    Text(String),
    /// The contents of the requested file, streamed by the connection layer.
    File,
}

/// An HTTP response: status code, headers in order, body.
pub struct Response {
    pub status: u16,
    pub headers: Vec<(String, String)>,
    pub body: Body,
}

/// A response's body, in the model.
pub enum BodyView {
    Empty,
    Text(Seq<char>),
    File,
}

/// A response, in the model.
pub struct ResponseView {
    pub status: u16,
    pub headers: Seq<(Seq<char>, Seq<char>)>,
    pub body: BodyView,
}

pub open spec fn headers_view(h: Seq<(String, String)>) -> Seq<(Seq<char>, Seq<char>)> {
    h.map_values(|p: (String, String)| (p.0@, p.1@))
}

impl View for Body {
    type V = BodyView;

    open spec fn view(&self) -> BodyView {
        match self {
            Body::Empty => BodyView::Empty,
            Body::Text(s) => BodyView::Text(s@),
            Body::File => BodyView::File,
        }
    }
}

impl View for Response {
    type V = ResponseView;

    open spec fn view(&self) -> ResponseView {
        ResponseView { status: self.status, headers: headers_view(self.headers@), body: self.body@ }
    }
}

/// The decimal digits of `n`.
pub open spec fn decimal(n: nat) -> Seq<char>
    decreases n,
{
    if n < 10 {
        seq![digit_char(n)]
    } else {
        decimal(n / 10).push(digit_char(n % 10))
    }
}

pub open spec fn digit_char(d: nat) -> char {
    if d == 0 { '0' }
    else if d == 1 { '1' }
    else if d == 2 { '2' }
    else if d == 3 { '3' }
    else if d == 4 { '4' }
    else if d == 5 { '5' }
    else if d == 6 { '6' }
    else if d == 7 { '7' }
    else if d == 8 { '8' }
    else { '9' }
}

fn digit_char_exec(d: u64) -> (c: char)
    requires
        d < 10,
    ensures
        c == digit_char(d as nat),
{
    if d == 0 { '0' }
    else if d == 1 { '1' }
    else if d == 2 { '2' }
    else if d == 3 { '3' }
    else if d == 4 { '4' }
    else if d == 5 { '5' }
    else if d == 6 { '6' }
    else if d == 7 { '7' }
    else if d == 8 { '8' }
    else { '9' }
}

/// Writes `n` in decimal.
pub fn decimal_string(n: u64) -> (r: String)
    ensures
        r@ == decimal(n as nat),
    decreases n,
{
    if n < 10 {
        let mut s = String::new();
        push_char(&mut s, digit_char_exec(n));
        assert(s@ =~= seq![digit_char(n as nat)]);
        s
    } else {
        let mut s = decimal_string(n / 10);
        push_char(&mut s, digit_char_exec(n % 10));
        s
    }
}

/// The standard reason phrase of the status codes this server sends.
pub open spec fn reason_phrase(status: u16) -> Seq<char> {
    if status == 200 {
        "OK"@
    } else if status == 302 {
        "Found"@
    } else if status == 404 {
        "Not Found"@
    } else if status == 405 {
        "Method Not Allowed"@
    } else if status == 500 {
        "Internal Server Error"@
    } else {
        seq![]
    }
}

/// A status line as shown to people, such as `404 Not Found`.
pub open spec fn status_title(status: u16) -> Seq<char> {
    if reason_phrase(status).len() == 0 {
        decimal(status as nat)
    } else {
        decimal(status as nat) + " "@ + reason_phrase(status)
    }
}

/// Writes a status code with its reason phrase, such as `404 Not Found`.
pub fn status_title_string(status: u16) -> (r: String)
    ensures
        r@ == status_title(status),
{
    let mut s = decimal_string(status as u64);
    let reason: &str = if status == 200 {
        "OK"
    } else if status == 302 {
        "Found"
    } else if status == 404 {
        "Not Found"
    } else if status == 405 {
        "Method Not Allowed"
    } else if status == 500 {
        "Internal Server Error"
    } else {
        ""
    };
    proof {
        reveal_strlit("");
        reveal_strlit("OK");
        reveal_strlit("Found");
        reveal_strlit("Not Found");
        reveal_strlit("Method Not Allowed");
        reveal_strlit("Internal Server Error");
    }
    assert(reason@ == reason_phrase(status));
    if reason.unicode_len() > 0 {
        s.append(" ");
        s.append(reason);
    }
    s
}

/// The page template: a title and a body of HTML.
pub const PAGE_TEMPLATE: &'static str = "<!DOCTYPE html>\n<html>\n<head>\n<meta charset=\"utf-8\">\n<title>{{title}}</title>\n</head>\n<body>\n<h1>{{title}}</h1>\n{{{body}}}\n</body>\n</html>\n";

/// What the page template gives for a title and a body, if it renders.
pub uninterp spec fn rendered_page(template: Seq<char>, title: Seq<char>, body: Seq<char>) -> Option<Seq<char>>;

/// Relies on handlebars::Handlebars::render_template: the template rendered
/// with `title` and `body` as its data; the result depends on those alone.
#[verifier::external_body]
fn render_template(template: &str, title: &str, body: &str) -> (r: Option<String>)
    ensures
        r.is_some() <==> rendered_page(template@, title@, body@).is_some(),
        r matches Some(s) ==> rendered_page(template@, title@, body@) == Some(s@),
{
    let mut data = std::collections::BTreeMap::new();
    data.insert("title", title);
    data.insert("body", body);
    handlebars::Handlebars::new().render_template(template, &data).ok()
}

/// The page for a title and a body of HTML, or `TemplateRender`.
pub open spec fn page(title: Seq<char>, body: Seq<char>) -> Result<Seq<char>, Error> {
    match rendered_page(PAGE_TEMPLATE@, title, body) {
        Some(s) => Ok(s),
        None => Err(Error::TemplateRender),
    }
}

/// Renders an HTML page from a title and a body of HTML.
pub fn render_html(title: &str, body: &str) -> (r: Result<String, Error>)
    ensures
        match r {
            Ok(s) => page(title@, body@) == Ok::<Seq<char>, Error>(s@),
            Err(e) => page(title@, body@) == Err::<Seq<char>, Error>(e),
        },
{
    match render_template(PAGE_TEMPLATE, title, body) {
        Some(s) => Ok(s),
        None => Err(Error::TemplateRender),
    }
}

/// Renders the error page for a status code: its title is the status.
pub fn render_error_html(status: u16) -> (r: Result<String, Error>)
    ensures
        match r {
            Ok(s) => page(status_title(status), seq![]) == Ok::<Seq<char>, Error>(s@),
            Err(e) => page(status_title(status), seq![]) == Err::<Seq<char>, Error>(e),
        },
{
    let title = status_title_string(status);
    let empty = String::new();
    render_html(title.as_str(), empty.as_str())
}

/// The number of bytes of a text in UTF-8, as a `usize` holds it.
pub open spec fn byte_len(s: Seq<char>) -> nat {
    (vstd::utf8::encode_utf8(s).len() as usize) as nat
}

/// An HTML response: the extra headers, then `content-length` and
/// `content-type: text/html`.
pub open spec fn html_response(
    status: u16,
    extra: Seq<(Seq<char>, Seq<char>)>,
    body: Seq<char>,
) -> ResponseView {
    ResponseView {
        status,
        headers: extra + seq![
            ("content-length"@, decimal(byte_len(body))),
            ("content-type"@, "text/html"@),
        ],
        body: BodyView::Text(body),
    }
}

/// Makes an HTTP response from an HTML string and extra headers.
pub fn html_str_to_response_with_headers(
    body: String,
    status: u16,
    headers: Vec<(String, String)>,
) -> (r: Response)
    ensures
        r@ == html_response(status, headers_view(headers@), body@),
{
    let mut hs = headers;
    let len = body.as_str().len();
    assert(len as nat == byte_len(body@));
    let n = String::from_str("content-length");
    let v = decimal_string(len as u64);
    hs.push((n, v));
    let t = String::from_str("content-type");
    let h = String::from_str("text/html");
    hs.push((t, h));
    assert(hs@ == headers@.push((n, v)).push((t, h)));
    let r = Response { status, headers: hs, body: Body::Text(body) };
    assert(headers_view(hs@) =~= headers_view(headers@).push((n@, v@)).push((t@, h@)));
    assert(r@.headers =~= html_response(status, headers_view(headers@), body@).headers);
    r
}

/// Makes an HTTP response from an HTML string.
pub fn html_str_to_response(body: String, status: u16) -> (r: Response)
    ensures
        r@ == html_response(status, seq![], body@),
{
    let r = html_str_to_response_with_headers(body, status, Vec::new());
    assert(headers_view(Seq::<(String, String)>::empty()) =~= seq![]);
    r
}

/// The error response for a status code, with extra headers.
pub open spec fn error_page_response(
    status: u16,
    extra: Seq<(Seq<char>, Seq<char>)>,
) -> Result<ResponseView, Error> {
    match page(status_title(status), seq![]) {
        Ok(s) => Ok(html_response(status, extra, s)),
        Err(e) => Err(e),
    }
}

/// Makes the error page response for a status code, with extra headers.
pub fn make_error_response_from_code_and_headers(
    status: u16,
    headers: Vec<(String, String)>,
) -> (r: Result<Response, Error>)
    ensures
        match r {
            Ok(resp) => error_page_response(status, headers_view(headers@)) == Ok::<ResponseView, Error>(resp@),
            Err(e) => error_page_response(status, headers_view(headers@)) == Err::<ResponseView, Error>(e),
        },
{
    let body = render_error_html(status)?;
    Ok(html_str_to_response_with_headers(body, status, headers))
}

/// Makes the error page response for a status code.
pub fn make_error_response_from_code(status: u16) -> (r: Result<Response, Error>)
    ensures
        match r {
            Ok(resp) => error_page_response(status, seq![]) == Ok::<ResponseView, Error>(resp@),
            Err(e) => error_page_response(status, seq![]) == Err::<ResponseView, Error>(e),
        },
{
    let r = make_error_response_from_code_and_headers(status, Vec::new());
    assert(headers_view(Seq::<(String, String)>::empty()) =~= seq![]);
    r
}

} // verus!
