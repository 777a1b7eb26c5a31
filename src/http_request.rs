//! The fields of a request head.
use vstd::prelude::*;
use crate::http_header::{HttpHeader, HeaderView, headers_view};

verus! {

/// The request as the parser has filled it so far.
#[verifier::ext_equal]
pub ghost struct RequestView {
    pub method: Seq<char>,
    pub uri: Seq<char>,
    pub headers: Seq<HeaderView>,
    pub version_major: u8,
    pub version_minor: u8,
    pub body: Seq<char>,
}

/// The request before the parser has read anything.
pub open spec fn empty_request() -> RequestView {
    RequestView {
        method: Seq::empty(),
        uri: Seq::empty(),
        headers: Seq::empty(),
        version_major: 0,
        version_minor: 0,
        body: Seq::empty(),
    }
}

#[derive(Clone, Debug)]
pub struct HttpRequest {
    pub method: String,
    pub uri: String,
    pub headers: Vec<HttpHeader>,
    pub version_major: u8,
    pub version_minor: u8,
    pub body: String,
}

impl View for HttpRequest {
    type V = RequestView;

    open spec fn view(&self) -> RequestView {
        RequestView {
            method: self.method@,
            uri: self.uri@,
            headers: headers_view(self.headers@),
            version_major: self.version_major,
            version_minor: self.version_minor,
            body: self.body@,
        }
    }
}

impl HttpRequest {
    pub fn default() -> (r: Self)
        ensures
            r@ == empty_request(),
    {
        let r = Self {
            method: String::new(),
            uri: String::new(),
            headers: Vec::new(),
            version_major: 0,
            version_minor: 0,
            body: String::new(),
        };
        assert(headers_view(r.headers@) =~= Seq::empty());
        r
    }
}

} // verus!
