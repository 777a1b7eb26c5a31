//! A response: status, headers and body, and its bytes on the wire.
use vstd::prelude::*;
use vstd::utf8::encode_utf8;
use crate::http_header::{HttpHeader, HeaderView, headers_view};
use crate::text::{push_str, push_utf8, push_bytes};

verus! {

#[derive(Clone, Copy, Debug, PartialEq, Eq, Structural)]
pub enum StatusType {
    Success,
    NotFound,
    MethodNotAllowed,
    /// Sent with the reason phrase `Internal Server Error`.
    InternalServerError,
}

/// The status line, with its line break.
pub open spec fn status_line(s: StatusType) -> Seq<char> {
    match s {
        StatusType::Success => "HTTP/1.1 200 Ok\r\n"@,
        StatusType::NotFound => "HTTP/1.1 404 Not Found\r\n"@,
        StatusType::MethodNotAllowed => "HTTP/1.1 405 Method Not Allowed\r\n"@,
        StatusType::InternalServerError => "HTTP/1.1 500 Internal Server Error\r\n"@,
    }
}

pub open spec fn reason_phrase(s: StatusType) -> Seq<char> {
    match s {
        StatusType::Success => "Ok"@,
        StatusType::NotFound => "Not Found"@,
        StatusType::MethodNotAllowed => "Method Not Allowed"@,
        StatusType::InternalServerError => "Internal Server Error"@,
    }
}

pub open spec fn status_code(s: StatusType) -> u16 {
    match s {
        StatusType::Success => 200,
        StatusType::NotFound => 404,
        StatusType::MethodNotAllowed => 405,
        StatusType::InternalServerError => 500,
    }
}

impl StatusType {
    pub fn code(&self) -> (r: u16)
        ensures
            r == status_code(*self),
    {
        match self {
            StatusType::Success => 200,
            StatusType::NotFound => 404,
            StatusType::MethodNotAllowed => 405,
            StatusType::InternalServerError => 500,
        }
    }

    /// The reason phrase.
    pub fn to_string(&self) -> (r: String)
        ensures
            r@ == reason_phrase(*self),
    {
        match self {
            StatusType::Success => "Ok".to_owned(),
            StatusType::NotFound => "Not Found".to_owned(),
            StatusType::MethodNotAllowed => "Method Not Allowed".to_owned(),
            StatusType::InternalServerError => "Internal Server Error".to_owned(),
        }
    }

    fn line(&self) -> (r: &'static str)
        ensures
            r@ == status_line(*self),
    {
        match self {
            StatusType::Success => "HTTP/1.1 200 Ok\r\n",
            StatusType::NotFound => "HTTP/1.1 404 Not Found\r\n",
            StatusType::MethodNotAllowed => "HTTP/1.1 405 Method Not Allowed\r\n",
            StatusType::InternalServerError => "HTTP/1.1 500 Internal Server Error\r\n",
        }
    }
}

#[verifier::ext_equal]
pub ghost struct ResponseView {
    pub status: StatusType,
    pub headers: Seq<HeaderView>,
    pub body: Seq<u8>,
}

/// `Name: Value` and a line break.
pub open spec fn header_line(h: HeaderView) -> Seq<char> {
    h.name + ": "@ + h.value + "\r\n"@
}

pub open spec fn header_lines(hs: Seq<HeaderView>) -> Seq<char>
    decreases hs.len(),
{
    if hs.len() == 0 {
        Seq::empty()
    } else {
        header_lines(hs.drop_last()) + header_line(hs.last())
    }
}

/// The head of a response as text: status line, header lines, empty line.
pub open spec fn response_head(r: ResponseView) -> Seq<char> {
    status_line(r.status) + header_lines(r.headers) + "\r\n"@
}

/// The bytes sent for a response: its head in UTF-8, then the body.
pub open spec fn response_bytes(r: ResponseView) -> Seq<u8> {
    encode_utf8(response_head(r)) + r.body
}

#[derive(Clone)]
pub struct HttpResponse {
    pub status: StatusType,
    pub headers: Vec<HttpHeader>,
    pub body: Vec<u8>,
}

impl View for HttpResponse {
    type V = ResponseView;

    open spec fn view(&self) -> ResponseView {
        ResponseView { status: self.status, headers: headers_view(self.headers@), body: self.body@ }
    }
}

impl HttpResponse {
    pub fn new(status: StatusType, headers: Vec<HttpHeader>, body: Vec<u8>) -> (r: Self)
        ensures
            r.status == status,
            r.headers@ == headers@,
            r.body@ == body@,
    {
        Self { status, headers, body }
    }

    pub fn default() -> (r: Self)
        ensures
            r@ == (ResponseView { status: StatusType::Success, headers: Seq::empty(), body: Seq::empty() }),
    {
        let r = Self { status: StatusType::Success, headers: Vec::new(), body: Vec::new() };
        assert(headers_view(r.headers@) =~= Seq::empty());
        r
    }

    /// The head as text.
    fn head(&self) -> (s: String)
        ensures
            s@ == response_head(self@),
    {
        let mut s = String::new();
        push_str(&mut s, self.status.line());
        let mut i: usize = 0;
        while i < self.headers.len()
            invariant
                i <= self.headers@.len(),
                s@ == status_line(self.status) + header_lines(headers_view(self.headers@).subrange(0, i as int)),
            decreases self.headers@.len() - i,
        {
            let ghost before = s@;
            push_str(&mut s, self.headers[i].name.as_str());
            push_str(&mut s, ": ");
            push_str(&mut s, self.headers[i].value.as_str());
            push_str(&mut s, "\r\n");
            proof {
                let hs = headers_view(self.headers@);
                assert(hs.subrange(0, i + 1).drop_last() =~= hs.subrange(0, i as int));
                assert(hs.subrange(0, i + 1).last() == self.headers@[i as int]@);
                assert(s@ =~= before + header_line(self.headers@[i as int]@));
            }
            i = i + 1;
        }
        push_str(&mut s, "\r\n");
        proof {
            assert(headers_view(self.headers@).subrange(0, self.headers@.len() as int) =~= headers_view(self.headers@));
        }
        s
    }

    /// The bytes to send: status line, headers, an empty line, then the body.
    pub fn bytes(&self) -> (r: Vec<u8>)
        ensures
            r@ == response_bytes(self@),
    {
        let head = self.head();
        let mut out: Vec<u8> = Vec::new();
        push_utf8(&mut out, head.as_str());
        push_bytes(&mut out, &self.body);
        assert(out@ =~= response_bytes(self@));
        out
    }
}

} // verus!
