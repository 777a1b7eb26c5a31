//! Handlers that fill a response for a request: a static file, a request logger, and a
//! decorator that runs one handler before another.
use vstd::prelude::*;
use std::sync::Arc;
use crate::file_storage::FileStorage;
use crate::http_header::{HttpHeader, HeaderView, headers_view};
use crate::http_request::{HttpRequest, RequestView};
use crate::http_response::{HttpResponse, ResponseView, StatusType};
use crate::text::{push_decimal, push_str, str_eq, decimal};

verus! {

/// The characters of a list of log lines.
pub open spec fn lines_view(v: Seq<String>) -> Seq<Seq<char>> {
    v.map_values(|s: String| s@)
}

/// The part of a file name from its first dot on.
pub open spec fn extension(name: Seq<char>) -> Option<Seq<char>>
    decreases name.len(),
{
    if name.len() == 0 {
        None
    } else if name[0] == '.' {
        Some(name)
    } else {
        extension(name.drop_first())
    }
}

/// The media type served for a file extension.
pub open spec fn mime_type(ext: Seq<char>) -> Option<Seq<char>> {
    if ext == ".html"@ {
        Some("text/html"@)
    } else if ext == ".css"@ {
        Some("text/css"@)
    } else if ext == ".png"@ {
        Some("image/png"@)
    } else if ext == ".js"@ {
        Some("text/javascript"@)
    } else {
        None
    }
}

pub open spec fn content_type(t: Seq<char>) -> HeaderView {
    HeaderView { name: "Content-Type"@, value: t }
}

/// An error page: the status, an HTML content type, and the page from the store (nothing if the
/// store lacks it).
pub open spec fn error_response(files: Map<Seq<char>, Seq<u8>>, status: StatusType, page: Seq<char>) -> ResponseView {
    ResponseView {
        status,
        headers: seq![content_type("text/html"@)],
        body: if files.contains_key(page) { files[page] } else { Seq::empty() },
    }
}

pub open spec fn not_found_page() -> Seq<char> {
    "404.html"@
}

pub open spec fn not_allowed_page() -> Seq<char> {
    "405.html"@
}

/// What a static file handler answers: the file with its media type; the 404 page when the
/// file is missing; an empty 500 when its extension has no known media type.
pub open spec fn static_file_response(files: Map<Seq<char>, Seq<u8>>, name: Seq<char>) -> ResponseView {
    if !files.contains_key(name) {
        error_response(files, StatusType::NotFound, not_found_page())
    } else {
        match extension(name) {
            Some(ext) => match mime_type(ext) {
                Some(t) => ResponseView {
                    status: StatusType::Success,
                    headers: seq![content_type(t)],
                    body: files[name],
                },
                None => internal_error_response(),
            },
            None => internal_error_response(),
        }
    }
}

pub open spec fn internal_error_response() -> ResponseView {
    ResponseView { status: StatusType::InternalServerError, headers: Seq::empty(), body: Seq::empty() }
}

/// The lines the request logger writes.
pub open spec fn request_log(r: RequestView) -> Seq<Seq<char>> {
    seq![
        "Method: "@ + r.method,
        "Uri: "@ + r.uri,
        "Version: HTTP/"@ + decimal(r.version_major as nat) + "."@ + decimal(r.version_minor as nat),
        "Headers:"@,
    ] + r.headers.map_values(|h: HeaderView| "\t"@ + h.name + ": "@ + h.value)
}

/// Serves one file of the store.
pub struct StaticFileHandler {
    pub file_storage: Arc<FileStorage>,
    pub file_name: String,
}

/// Writes the request to the log and leaves the response alone.
pub struct RequestLogger {}

/// Runs `action`, then `wrapped`, on the same request and response.
pub struct Middleware {
    pub action: Handler,
    pub wrapped: Handler,
}

pub enum Handler {
    StaticFile(StaticFileHandler),
    Logger(RequestLogger),
    Middleware(Box<Middleware>),
}

/// The response and the log after handler `h` ran.
pub open spec fn handled(h: Handler, req: RequestView, resp: ResponseView, log: Seq<Seq<char>>) -> (ResponseView, Seq<Seq<char>>)
    decreases h,
{
    match h {
        Handler::StaticFile(s) => (static_file_response((*s.file_storage)@, s.file_name@), log),
        Handler::Logger(_) => (resp, log + request_log(req)),
        Handler::Middleware(m) => {
            let (resp1, log1) = handled(m.action, req, resp, log);
            handled(m.wrapped, req, resp1, log1)
        },
    }
}

/// The file's extension: from its first dot on.
fn file_extension(name: &str) -> (r: Option<&str>)
    ensures
        match r {
            Some(e) => extension(name@) == Some(e@),
            None => extension(name@) is None,
        },
{
    let n = name.unicode_len();
    let mut i: usize = 0;
    assert(name@.subrange(0, name@.len() as int) =~= name@);
    for c in it: name.chars()
        invariant
            it.seq() == name@,
            n == name@.len(),
            i == it.index(),
            extension(name@) == extension(name@.subrange(i as int, name@.len() as int)),
    {
        let ghost rest = name@.subrange(i as int, name@.len() as int);
        assert(rest[0] == c);
        assert(rest.drop_first() =~= name@.subrange(i + 1, name@.len() as int));
        if c == '.' {
            return Some(name.substring_char(i, n));
        }
        i = i + 1;
    }
    assert(name@.subrange(i as int, name@.len() as int) =~= Seq::empty());
    None
}

/// The media type of an extension, if it is one of those served.
pub fn extension_to_http_mimo_type(extension: &str) -> (r: Option<&'static str>)
    ensures
        match r {
            Some(t) => mime_type(extension@) == Some(t@),
            None => mime_type(extension@) is None,
        },
{
    if str_eq(extension, ".html") {
        Some("text/html")
    } else if str_eq(extension, ".css") {
        Some("text/css")
    } else if str_eq(extension, ".png") {
        Some("image/png")
    } else if str_eq(extension, ".js") {
        Some("text/javascript")
    } else {
        None
    }
}

fn copy_bytes(b: &Vec<u8>) -> (r: Vec<u8>)
    ensures
        r@ == b@,
{
    let mut r: Vec<u8> = Vec::new();
    crate::text::push_bytes(&mut r, b);
    r
}

/// An error page from the store, as `error_response` says.
pub fn error_page(files: &FileStorage, status: StatusType, page: &str) -> (r: HttpResponse)
    ensures
        r@ == error_response(files@, status, page@),
{
    let body = match files.get(page) {
        Some(content) => copy_bytes(content),
        None => Vec::new(),
    };
    let mut headers: Vec<HttpHeader> = Vec::new();
    headers.push(HttpHeader::new("Content-Type", "text/html"));
    let r = HttpResponse::new(status, headers, body);
    assert(headers_view(r.headers@) =~= seq![content_type("text/html"@)]);
    assert(r@ =~= error_response(files@, status, page@));
    r
}

impl StaticFileHandler {
    pub fn new(file_storage: Arc<FileStorage>, file_name: String) -> (h: Self)
        ensures
            h.file_storage == file_storage,
            h.file_name == file_name,
    {
        Self { file_storage, file_name }
    }

    pub fn handle(&self, _request: &HttpRequest, response: &mut HttpResponse)
        ensures
            final(response)@ == static_file_response((*self.file_storage)@, self.file_name@),
    {
        let files: &FileStorage = &self.file_storage;
        let content = match files.get(self.file_name.as_str()) {
            Some(content) => content,
            None => {
                *response = error_page(files, StatusType::NotFound, "404.html");
                return;
            },
        };
        let ext = match file_extension(self.file_name.as_str()) {
            Some(ext) => ext,
            None => {
                *response = HttpResponse::new(StatusType::InternalServerError, Vec::new(), Vec::new());
                assert(response@ =~= internal_error_response());
                return;
            },
        };
        let mime = match extension_to_http_mimo_type(ext) {
            Some(mime) => mime,
            None => {
                *response = HttpResponse::new(StatusType::InternalServerError, Vec::new(), Vec::new());
                assert(response@ =~= internal_error_response());
                return;
            },
        };
        let mut headers: Vec<HttpHeader> = Vec::new();
        headers.push(HttpHeader::new("Content-Type", mime));
        *response = HttpResponse::new(StatusType::Success, headers, copy_bytes(content));
        assert(headers_view(response.headers@) =~= seq![content_type(mime@)]);
        assert(response@ =~= static_file_response((*self.file_storage)@, self.file_name@));
    }
}

impl RequestLogger {
    pub fn new() -> Self {
        Self {}
    }

    /// Appends the lines of `request_log` to the log.
    pub fn handle(&self, request: &HttpRequest, log: &mut Vec<String>)
        ensures
            lines_view(final(log)@) == lines_view(old(log)@) + request_log(request@),
    {
        let ghost start = lines_view(log@);
        let mut line = String::new();
        push_str(&mut line, "Method: ");
        push_str(&mut line, request.method.as_str());
        log.push(line);
        let mut line = String::new();
        push_str(&mut line, "Uri: ");
        push_str(&mut line, request.uri.as_str());
        log.push(line);
        let mut line = String::new();
        push_str(&mut line, "Version: HTTP/");
        push_decimal(&mut line, request.version_major);
        push_str(&mut line, ".");
        push_decimal(&mut line, request.version_minor);
        log.push(line);
        log.push("Headers:".to_owned());
        let ghost fixed = lines_view(log@);
        assert(fixed =~= start + seq![
            "Method: "@ + request@.method,
            "Uri: "@ + request@.uri,
            "Version: HTTP/"@ + decimal(request.version_major as nat) + "."@ + decimal(request.version_minor as nat),
            "Headers:"@,
        ]);
        let ghost hv = request@.headers;
        let mut i: usize = 0;
        while i < request.headers.len()
            invariant
                i <= request.headers@.len(),
                hv == request@.headers,
                hv.len() == request.headers@.len(),
                lines_view(log@) == fixed + hv.subrange(0, i as int).map_values(|h: HeaderView| "\t"@ + h.name + ": "@ + h.value),
            decreases request.headers@.len() - i,
        {
            let mut line = String::new();
            push_str(&mut line, "\t");
            push_str(&mut line, request.headers[i].name.as_str());
            push_str(&mut line, ": ");
            push_str(&mut line, request.headers[i].value.as_str());
            let ghost before = log@;
            log.push(line);
            proof {
                assert(hv[i as int] == request.headers@[i as int]@);
                assert(hv.subrange(0, i + 1).map_values(|h: HeaderView| "\t"@ + h.name + ": "@ + h.value)
                    =~= hv.subrange(0, i as int).map_values(|h: HeaderView| "\t"@ + h.name + ": "@ + h.value).push(line@));
                assert(lines_view(log@) =~= lines_view(before).push(line@));
            }
            i = i + 1;
        }
        assert(hv.subrange(0, hv.len() as int) =~= hv);
        assert(lines_view(log@) =~= start + request_log(request@));
    }
}

impl Middleware {
    pub fn new(action: Handler, wrapped: Handler) -> (m: Self)
        ensures
            m.action == action,
            m.wrapped == wrapped,
    {
        Self { action, wrapped }
    }

    pub fn handle(&self, request: &HttpRequest, response: &mut HttpResponse, log: &mut Vec<String>)
        ensures
            (final(response)@, lines_view(final(log)@)) == handled(
                Handler::Middleware(Box::new(*self)),
                request@,
                old(response)@,
                lines_view(old(log)@),
            ),
        decreases *self,
    {
        self.action.handle(request, response, log);
        self.wrapped.handle(request, response, log);
    }
}

impl Handler {
    pub fn handle(&self, request: &HttpRequest, response: &mut HttpResponse, log: &mut Vec<String>)
        ensures
            (final(response)@, lines_view(final(log)@)) == handled(
                *self,
                request@,
                old(response)@,
                lines_view(old(log)@),
            ),
        decreases *self,
    {
        match self {
            Handler::StaticFile(h) => h.handle(request, response),
            Handler::Logger(h) => h.handle(request, log),
            Handler::Middleware(m) => m.handle(request, response, log),
        }
    }
}

} // verus!
