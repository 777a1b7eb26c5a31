//! Incremental parser of a request head, one character at a time.
use vstd::prelude::*;
use crate::http_header::{HttpHeader, HeaderView, headers_view};
use crate::http_request::{HttpRequest, RequestView, empty_request};
use crate::text::{
    is_alpha, is_digit, is_control, is_graphic, is_token_char, digit_value, ascii_alphabetic,
    ascii_digit, ascii_control, ascii_graphic, is_tspecial, digit_to_u8,
};

verus! {

/// What the parser says after each character.
#[derive(Clone, Copy, Debug, PartialEq, Eq, Structural)]
pub enum ParseResult {
    /// The head is complete.
    Complete,
    /// The input breaks the grammar.
    Bad,
    /// More input is needed.
    Indeterminate,
}

/// Where the parser stands in the grammar of a request head.
#[derive(Clone, Copy, Debug, PartialEq, Eq, Structural)]
pub enum ParserState {
    MethodStart,
    Method,
    Uri,
    HttpVersionH,
    HttpVersionT1,
    HttpVersionT2,
    HttpVersionP,
    HttpVersionSlash,
    HttpVersionMajorStart,
    HttpVersionMajor,
    HttpVersionMinorStart,
    HttpVersionMinor,
    NewLine1,
    HeaderLineStart,
    HeaderName,
    SpaceBeforeHeaderValue,
    HeaderValue,
    NewLine2,
    NewLine3,
}

/// The next value of a version number on one more digit; the number is kept in a byte.
pub open spec fn next_version(v: u8, c: char) -> u8 {
    ((v * 10 + digit_value(c)) % 256) as u8
}

pub open spec fn push_method(r: RequestView, c: char) -> RequestView {
    RequestView { method: r.method.push(c), ..r }
}

pub open spec fn push_uri(r: RequestView, c: char) -> RequestView {
    RequestView { uri: r.uri.push(c), ..r }
}

pub open spec fn last_header(r: RequestView) -> HeaderView {
    r.headers[r.headers.len() - 1]
}

pub open spec fn set_last_header(r: RequestView, h: HeaderView) -> RequestView {
    RequestView { headers: r.headers.update(r.headers.len() - 1, h), ..r }
}

pub open spec fn push_header_name(r: RequestView, c: char) -> RequestView {
    set_last_header(r, HeaderView { name: last_header(r).name.push(c), ..last_header(r) })
}

pub open spec fn push_header_value(r: RequestView, c: char) -> RequestView {
    set_last_header(r, HeaderView { value: last_header(r).value.push(c), ..last_header(r) })
}

pub open spec fn start_header(r: RequestView, c: char) -> RequestView {
    RequestView {
        headers: r.headers.push(HeaderView { name: seq![c], value: Seq::empty() }),
        ..r
    }
}

/// One character read in state `s` with the request as filled so far: the next state, the
/// request, and the answer.
#[verifier::opaque]
pub open spec fn step(s: ParserState, r: RequestView, c: char) -> (ParserState, RequestView, ParseResult) {
    let bad = (s, r, ParseResult::Bad);
    let more = ParseResult::Indeterminate;
    match s {
        ParserState::MethodStart => if is_alpha(c) {
            (ParserState::Method, push_method(r, c), more)
        } else {
            bad
        },
        ParserState::Method => if c == ' ' {
            (ParserState::Uri, r, more)
        } else if is_alpha(c) {
            (ParserState::Method, push_method(r, c), more)
        } else {
            bad
        },
        ParserState::Uri => if c == ' ' {
            if r.uri.len() == 0 {
                bad
            } else {
                (ParserState::HttpVersionH, r, more)
            }
        } else if is_graphic(c) {
            (ParserState::Uri, push_uri(r, c), more)
        } else {
            bad
        },
        ParserState::HttpVersionH => if c == 'H' {
            (ParserState::HttpVersionT1, r, more)
        } else {
            bad
        },
        ParserState::HttpVersionT1 => if c == 'T' {
            (ParserState::HttpVersionT2, r, more)
        } else {
            bad
        },
        ParserState::HttpVersionT2 => if c == 'T' {
            (ParserState::HttpVersionP, r, more)
        } else {
            bad
        },
        ParserState::HttpVersionP => if c == 'P' {
            (ParserState::HttpVersionSlash, r, more)
        } else {
            bad
        },
        ParserState::HttpVersionSlash => if c == '/' {
            (
                ParserState::HttpVersionMajorStart,
                RequestView { version_major: 0, version_minor: 0, ..r },
                more,
            )
        } else {
            bad
        },
        ParserState::HttpVersionMajorStart => if is_digit(c) {
            (ParserState::HttpVersionMajor, RequestView { version_major: digit_value(c), ..r }, more)
        } else {
            bad
        },
        ParserState::HttpVersionMajor => if c == '.' {
            (ParserState::HttpVersionMinorStart, r, more)
        } else if is_digit(c) {
            (
                ParserState::HttpVersionMajor,
                RequestView { version_major: next_version(r.version_major, c), ..r },
                more,
            )
        } else {
            bad
        },
        ParserState::HttpVersionMinorStart => if is_digit(c) {
            (ParserState::HttpVersionMinor, RequestView { version_minor: digit_value(c), ..r }, more)
        } else {
            bad
        },
        ParserState::HttpVersionMinor => if c == '\r' {
            (ParserState::NewLine1, r, more)
        } else if is_digit(c) {
            (
                ParserState::HttpVersionMinor,
                RequestView { version_minor: next_version(r.version_minor, c), ..r },
                more,
            )
        } else {
            bad
        },
        ParserState::NewLine1 => if c == '\n' {
            (ParserState::HeaderLineStart, r, more)
        } else {
            bad
        },
        ParserState::HeaderLineStart => if c == '\r' {
            (ParserState::NewLine3, r, more)
        } else if is_token_char(c) {
            (ParserState::HeaderName, start_header(r, c), more)
        } else {
            bad
        },
        ParserState::HeaderName => if c == ':' {
            (ParserState::SpaceBeforeHeaderValue, r, more)
        } else if is_token_char(c) && r.headers.len() > 0 {
            (ParserState::HeaderName, push_header_name(r, c), more)
        } else {
            bad
        },
        ParserState::SpaceBeforeHeaderValue => if c == ' ' {
            (ParserState::HeaderValue, r, more)
        } else {
            (s, r, more)
        },
        ParserState::HeaderValue => if r.headers.len() == 0 {
            bad
        } else if c == '\r' {
            if last_header(r).value.len() == 0 {
                bad
            } else {
                (ParserState::NewLine2, r, more)
            }
        } else if is_control(c) {
            bad
        } else {
            (ParserState::HeaderValue, push_header_value(r, c), more)
        },
        ParserState::NewLine2 => if c == '\n' {
            (ParserState::HeaderLineStart, r, more)
        } else {
            bad
        },
        ParserState::NewLine3 => if c == '\n' {
            (s, r, ParseResult::Complete)
        } else {
            bad
        },
    }
}

/// Feeding `input` character by character, stopping at the first `Ok` or `Bad`.
pub open spec fn run(s: ParserState, r: RequestView, input: Seq<char>) -> (ParserState, RequestView, ParseResult)
    decreases input.len(),
{
    if input.len() == 0 {
        (s, r, ParseResult::Indeterminate)
    } else {
        let (s2, r2, res) = step(s, r, input[0]);
        if res == ParseResult::Indeterminate {
            run(s2, r2, input.drop_first())
        } else {
            (s2, r2, res)
        }
    }
}

#[derive(Clone)]
pub struct HttpRequestParser {
    state: ParserState,
}

impl View for HttpRequestParser {
    type V = ParserState;

    closed spec fn view(&self) -> ParserState {
        self.state
    }
}

proof fn lemma_headers_push(hs: Seq<HttpHeader>, h: HttpHeader)
    ensures
        headers_view(hs.push(h)) == headers_view(hs).push(h@),
{
    assert(headers_view(hs.push(h)) =~= headers_view(hs).push(h@));
}

impl HttpRequestParser {
    pub fn new() -> (p: Self)
        ensures
            p@ == ParserState::MethodStart,
    {
        Self { state: ParserState::MethodStart }
    }

    /// Appends `c` to the name of the last header, or to its value.
    fn push_to_last_header(request: &mut HttpRequest, c: char, to_name: bool)
        requires
            old(request).headers@.len() > 0,
        ensures
            to_name ==> final(request)@ == push_header_name(old(request)@, c),
            !to_name ==> final(request)@ == push_header_value(old(request)@, c),
    {
        let ghost before = request@;
        let mut h = request.headers.pop().unwrap();
        proof {
            assert(request.headers@.push(h) =~= old(request).headers@);
            lemma_headers_push(request.headers@, h);
        }
        if to_name {
            h.name.push(c);
        } else {
            h.value.push(c);
        }
        let ghost mid = request.headers@;
        request.headers.push(h);
        proof {
            lemma_headers_push(mid, h);
            if to_name {
                assert(request@ =~= push_header_name(before, c));
            } else {
                assert(request@ =~= push_header_value(before, c));
            }
        }
    }

    fn consume(&mut self, request: &mut HttpRequest, c: char) -> (r: ParseResult)
        ensures
            (final(self)@, final(request)@, r) == step(old(self)@, old(request)@, c),
    {
        reveal(step);
        match self.state {
            ParserState::MethodStart => {
                if !ascii_alphabetic(c) {
                    return ParseResult::Bad;
                }
                request.method.push(c);
                self.state = ParserState::Method;
                ParseResult::Indeterminate
            },
            ParserState::Method => {
                if c == ' ' {
                    self.state = ParserState::Uri;
                    return ParseResult::Indeterminate;
                }
                if !ascii_alphabetic(c) {
                    return ParseResult::Bad;
                }
                request.method.push(c);
                ParseResult::Indeterminate
            },
            ParserState::Uri => {
                if c == ' ' {
                    if request.uri.as_str().is_empty() {
                        return ParseResult::Bad;
                    }
                    self.state = ParserState::HttpVersionH;
                    return ParseResult::Indeterminate;
                }
                if !ascii_graphic(c) {
                    return ParseResult::Bad;
                }
                request.uri.push(c);
                ParseResult::Indeterminate
            },
            ParserState::HttpVersionH => {
                if c == 'H' {
                    self.state = ParserState::HttpVersionT1;
                    return ParseResult::Indeterminate;
                }
                ParseResult::Bad
            },
            ParserState::HttpVersionT1 => {
                if c == 'T' {
                    self.state = ParserState::HttpVersionT2;
                    return ParseResult::Indeterminate;
                }
                ParseResult::Bad
            },
            ParserState::HttpVersionT2 => {
                if c == 'T' {
                    self.state = ParserState::HttpVersionP;
                    return ParseResult::Indeterminate;
                }
                ParseResult::Bad
            },
            ParserState::HttpVersionP => {
                if c == 'P' {
                    self.state = ParserState::HttpVersionSlash;
                    return ParseResult::Indeterminate;
                }
                ParseResult::Bad
            },
            ParserState::HttpVersionSlash => {
                if c == '/' {
                    request.version_major = 0;
                    request.version_minor = 0;
                    self.state = ParserState::HttpVersionMajorStart;
                    return ParseResult::Indeterminate;
                }
                ParseResult::Bad
            },
            ParserState::HttpVersionMajorStart => {
                if !ascii_digit(c) {
                    return ParseResult::Bad;
                }
                request.version_major = digit_to_u8(c);
                self.state = ParserState::HttpVersionMajor;
                ParseResult::Indeterminate
            },
            ParserState::HttpVersionMajor => {
                if c == '.' {
                    self.state = ParserState::HttpVersionMinorStart;
                    return ParseResult::Indeterminate;
                }
                if !ascii_digit(c) {
                    return ParseResult::Bad;
                }
                request.version_major = accumulate_digit(request.version_major, c);
                ParseResult::Indeterminate
            },
            ParserState::HttpVersionMinorStart => {
                if !ascii_digit(c) {
                    return ParseResult::Bad;
                }
                request.version_minor = digit_to_u8(c);
                self.state = ParserState::HttpVersionMinor;
                ParseResult::Indeterminate
            },
            ParserState::HttpVersionMinor => {
                if c == '\r' {
                    self.state = ParserState::NewLine1;
                    return ParseResult::Indeterminate;
                }
                if !ascii_digit(c) {
                    return ParseResult::Bad;
                }
                request.version_minor = accumulate_digit(request.version_minor, c);
                ParseResult::Indeterminate
            },
            ParserState::NewLine1 => {
                if c != '\n' {
                    return ParseResult::Bad;
                }
                self.state = ParserState::HeaderLineStart;
                ParseResult::Indeterminate
            },
            ParserState::HeaderLineStart => {
                if c == '\r' {
                    self.state = ParserState::NewLine3;
                    return ParseResult::Indeterminate;
                }
                if !ascii_graphic(c) || ascii_control(c) || is_tspecial(c) {
                    return ParseResult::Bad;
                }
                let mut h = HttpHeader::default();
                h.name.push(c);
                proof {
                    lemma_headers_push(request.headers@, h);
                }
                request.headers.push(h);
                proof {
                    assert(h@.name =~= seq![c]);
                    assert(request@ =~= start_header(old(request)@, c));
                }
                self.state = ParserState::HeaderName;
                ParseResult::Indeterminate
            },
            ParserState::HeaderName => {
                if c == ':' {
                    self.state = ParserState::SpaceBeforeHeaderValue;
                    return ParseResult::Indeterminate;
                }
                if !ascii_graphic(c) || ascii_control(c) || is_tspecial(c) || request.headers.len() == 0 {
                    return ParseResult::Bad;
                }
                Self::push_to_last_header(request, c, true);
                ParseResult::Indeterminate
            },
            ParserState::SpaceBeforeHeaderValue => {
                if c == ' ' {
                    self.state = ParserState::HeaderValue;
                }
                ParseResult::Indeterminate
            },
            ParserState::HeaderValue => {
                let n = request.headers.len();
                if n == 0 {
                    return ParseResult::Bad;
                }
                if c == '\r' {
                    if request.headers[n - 1].value.as_str().is_empty() {
                        return ParseResult::Bad;
                    }
                    self.state = ParserState::NewLine2;
                    return ParseResult::Indeterminate;
                }
                if ascii_control(c) {
                    return ParseResult::Bad;
                }
                Self::push_to_last_header(request, c, false);
                ParseResult::Indeterminate
            },
            ParserState::NewLine2 => {
                if c == '\n' {
                    self.state = ParserState::HeaderLineStart;
                    return ParseResult::Indeterminate;
                }
                ParseResult::Bad
            },
            ParserState::NewLine3 => {
                if c == '\n' {
                    return ParseResult::Complete;
                }
                ParseResult::Bad
            },
        }
    }

    /// Feeds the characters of `input` until the head is complete or broken.
    pub fn parse(&mut self, request: &mut HttpRequest, input: &str) -> (r: ParseResult)
        ensures
            (final(self)@, final(request)@, r) == run(old(self)@, old(request)@, input@),
    {
        let ghost s0 = self@;
        let ghost r0 = request@;
        proof {
            assert(input@.subrange(0, input@.len() as int) =~= input@);
        }
        for c in it: input.chars()
            invariant
                it.seq() == input@,
                s0 == old(self)@,
                r0 == old(request)@,
                run(s0, r0, input@) == run(self@, request@, input@.subrange(it.index() as int, input@.len() as int)),
        {
            let ghost rest = input@.subrange(it.index() as int, input@.len() as int);
            proof {
                assert(rest[0] == c);
                assert(rest.drop_first() =~= input@.subrange(it.index() + 1, input@.len() as int));
            }
            let ghost s1 = self@;
            let ghost r1 = request@;
            let result = self.consume(request, c);
            proof {
                assert(run(s1, r1, rest) == {
                    let (s2, r2, res) = step(s1, r1, c);
                    if res == ParseResult::Indeterminate {
                        run(s2, r2, rest.drop_first())
                    } else {
                        (s2, r2, res)
                    }
                });
            }
            match result {
                ParseResult::Complete | ParseResult::Bad => {
                    assert(step(s1, r1, c).2 != ParseResult::Indeterminate);
                    assert(run(s1, r1, rest) == step(s1, r1, c));
                    return result;
                },
                ParseResult::Indeterminate => {},
            }
        }
        ParseResult::Indeterminate
    }
}

/// `v * 10 + d`, kept in a byte.
fn accumulate_digit(v: u8, c: char) -> (r: u8)
    requires
        is_digit(c),
    ensures
        r == next_version(v, c),
{
    let d = digit_to_u8(c);
    (((v as u32) * 10 + (d as u32)) % 256) as u8
}

} // verus!

verus! {

/// Feeding a list of chunks one after another, stopping at the first `Ok` or `Bad`.
pub open spec fn run_chunks(s: ParserState, r: RequestView, chunks: Seq<Seq<char>>) -> (ParserState, RequestView, ParseResult)
    decreases chunks.len(),
{
    if chunks.len() == 0 {
        (s, r, ParseResult::Indeterminate)
    } else {
        let (s2, r2, res) = run(s, r, chunks[0]);
        if res == ParseResult::Indeterminate {
            run_chunks(s2, r2, chunks.drop_first())
        } else {
            (s2, r2, res)
        }
    }
}

/// Feeding `a + b` is feeding `a`, then `b` if `a` left the head unfinished.
pub proof fn lemma_run_append(s: ParserState, r: RequestView, a: Seq<char>, b: Seq<char>)
    ensures
        run(s, r, a + b) == ({
            let (s1, r1, res1) = run(s, r, a);
            if res1 == ParseResult::Indeterminate {
                run(s1, r1, b)
            } else {
                (s1, r1, res1)
            }
        }),
    decreases a.len(),
{
    if a.len() == 0 {
        assert(a + b =~= b);
    } else {
        let (s2, r2, res) = step(s, r, a[0]);
        assert((a + b)[0] == a[0]);
        assert((a + b).drop_first() =~= a.drop_first() + b);
        if res == ParseResult::Indeterminate {
            lemma_run_append(s2, r2, a.drop_first(), b);
        }
    }
}

/// Whatever the chunks a head arrives in, the parser ends with the same answer and the same
/// request as when it is given the whole input at once.
pub proof fn lemma_parse_in_chunks(s: ParserState, r: RequestView, chunks: Seq<Seq<char>>)
    ensures
        run_chunks(s, r, chunks) == run(s, r, chunks.flatten()),
    decreases chunks.len(),
{
    if chunks.len() == 0 {
    } else {
        lemma_run_append(s, r, chunks[0], chunks.drop_first().flatten());
        let (s2, r2, res) = run(s, r, chunks[0]);
        if res == ParseResult::Indeterminate {
            lemma_parse_in_chunks(s2, r2, chunks.drop_first());
        }
    }
}

/// The input split into chunks of one character each.
pub open spec fn one_by_one(input: Seq<char>) -> Seq<Seq<char>> {
    input.map_values(|c: char| seq![c])
}

proof fn lemma_flatten_one_by_one(input: Seq<char>)
    ensures
        one_by_one(input).flatten() == input,
    decreases input.len(),
{
    if input.len() > 0 {
        assert(one_by_one(input).drop_first() =~= one_by_one(input.drop_first()));
        lemma_flatten_one_by_one(input.drop_first());
        assert(input =~= seq![input[0]] + input.drop_first());
    } else {
        assert(one_by_one(input) =~= Seq::empty());
    }
}

/// Feeding a head character by character gives the same answer and request as feeding it
/// whole.
pub proof fn lemma_parse_one_by_one(s: ParserState, r: RequestView, input: Seq<char>)
    ensures
        run_chunks(s, r, one_by_one(input)) == run(s, r, input),
{
    lemma_parse_in_chunks(s, r, one_by_one(input));
    lemma_flatten_one_by_one(input);
}

/// A complete head: a method of letters, a target of visible characters, and headers whose
/// names are tokens and whose values are not empty.
pub open spec fn valid_head(r: RequestView) -> bool {
    &&& r.method.len() > 0
    &&& forall|i: int| 0 <= i < r.method.len() ==> is_alpha(#[trigger] r.method[i])
    &&& r.uri.len() > 0
    &&& forall|i: int| 0 <= i < r.uri.len() ==> is_graphic(#[trigger] r.uri[i])
    &&& forall|i: int| 0 <= i < r.headers.len() ==> valid_header(#[trigger] r.headers[i])
}

pub open spec fn valid_header(h: HeaderView) -> bool {
    &&& h.name.len() > 0
    &&& forall|j: int| 0 <= j < h.name.len() ==> is_token_char(#[trigger] h.name[j])
    &&& h.value.len() > 0
}

/// The states before the first header line.
pub open spec fn before_headers(s: ParserState) -> bool {
    !(s == ParserState::HeaderLineStart || s == ParserState::HeaderName
        || s == ParserState::SpaceBeforeHeaderValue || s == ParserState::HeaderValue
        || s == ParserState::NewLine2 || s == ParserState::NewLine3)
}

/// The states after the request target.
pub open spec fn after_uri(s: ParserState) -> bool {
    !(s == ParserState::MethodStart || s == ParserState::Method || s == ParserState::Uri)
}

/// The states in which the last header line, if any, is finished.
pub open spec fn headers_closed(s: ParserState) -> bool {
    s == ParserState::HeaderLineStart || s == ParserState::NewLine2 || s == ParserState::NewLine3
        || before_headers(s)
}

/// What holds of the request in each state, from an empty request on.
pub open spec fn consistent(s: ParserState, r: RequestView) -> bool {
    &&& forall|i: int| 0 <= i < r.method.len() ==> is_alpha(#[trigger] r.method[i])
    &&& forall|i: int| 0 <= i < r.uri.len() ==> is_graphic(#[trigger] r.uri[i])
    &&& s != ParserState::MethodStart ==> r.method.len() > 0
    &&& after_uri(s) ==> r.uri.len() > 0
    &&& before_headers(s) ==> r.headers.len() == 0
    &&& forall|i: int| 0 <= i < r.headers.len() ==> {
        let h = #[trigger] r.headers[i];
        &&& h.name.len() > 0
        &&& forall|j: int| 0 <= j < h.name.len() ==> is_token_char(#[trigger] h.name[j])
        &&& (i < r.headers.len() - 1 || headers_closed(s)) ==> h.value.len() > 0
    }
}

proof fn lemma_step_consistent(s: ParserState, r: RequestView, c: char)
    requires
        consistent(s, r),
    ensures
        consistent(step(s, r, c).0, step(s, r, c).1),
        step(s, r, c).2 == ParseResult::Complete ==> step(s, r, c).0 == ParserState::NewLine3,
{
    reveal(step);
    let (s2, r2, res) = step(s, r, c);
    if r2.headers.len() > 0 && r.headers.len() > 0 && r2.headers.len() == r.headers.len() {
        let k = r.headers.len() - 1;
        assert forall|i: int| 0 <= i < k implies #[trigger] r2.headers[i] == r.headers[i] by {}
    }
    if r2.headers.len() == r.headers.len() + 1 {
        assert forall|i: int| 0 <= i < r.headers.len() implies #[trigger] r2.headers[i] == r.headers[i] by {}
    }
}

proof fn lemma_run_consistent(s: ParserState, r: RequestView, input: Seq<char>)
    requires
        consistent(s, r),
    ensures
        consistent(run(s, r, input).0, run(s, r, input).1),
        run(s, r, input).2 == ParseResult::Complete ==> run(s, r, input).0 == ParserState::NewLine3,
    decreases input.len(),
{
    if input.len() > 0 {
        lemma_step_consistent(s, r, input[0]);
        let (s2, r2, res) = step(s, r, input[0]);
        if res == ParseResult::Indeterminate {
            lemma_run_consistent(s2, r2, input.drop_first());
        }
    }
}

/// Whenever a parser started on an empty request says the head is complete, the request has a
/// method of letters, a target of visible characters, and headers with token names and
/// non-empty values; the version numbers are bytes by their type.
pub proof fn lemma_complete_head_is_valid(input: Seq<char>)
    ensures
        run(ParserState::MethodStart, empty_request(), input).2 == ParseResult::Complete
            ==> valid_head(run(ParserState::MethodStart, empty_request(), input).1),
{
    lemma_run_consistent(ParserState::MethodStart, empty_request(), input);
    let (s, r, res) = run(ParserState::MethodStart, empty_request(), input);
    if res == ParseResult::Complete {
        assert forall|i: int| 0 <= i < r.headers.len() implies valid_header(#[trigger] r.headers[i]) by {
            let h = r.headers[i];
            assert(h.name.len() > 0);
        }
    }
}

} // verus!
