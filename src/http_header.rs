//! A header line: a name and a value.
use vstd::prelude::*;

verus! {

/// The characters of a header's name and value.
#[verifier::ext_equal]
pub ghost struct HeaderView {
    pub name: Seq<char>,
    pub value: Seq<char>,
}

#[derive(Clone, Debug)]
pub struct HttpHeader {
    pub name: String,
    pub value: String,
}

impl View for HttpHeader {
    type V = HeaderView;

    open spec fn view(&self) -> HeaderView {
        HeaderView { name: self.name@, value: self.value@ }
    }
}

impl HttpHeader {
    pub fn new(name: &str, value: &str) -> (h: Self)
        ensures
            h@ == (HeaderView { name: name@, value: value@ }),
    {
        Self { name: name.to_owned(), value: value.to_owned() }
    }

    pub fn default() -> (h: Self)
        ensures
            h@ == (HeaderView { name: Seq::empty(), value: Seq::empty() }),
    {
        Self { name: String::new(), value: String::new() }
    }
}

/// The views of a list of headers.
pub open spec fn headers_view(headers: Seq<HttpHeader>) -> Seq<HeaderView> {
    headers.map_values(|h: HttpHeader| h@)
}

} // verus!
