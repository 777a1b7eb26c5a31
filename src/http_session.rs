//! One HTTP connection: peeked bytes go to the parser until the head is complete; then the
//! connection is either handed to the WebSocket side untouched, or drained and answered.
use vstd::prelude::*;
use std::sync::Arc;
use vstd::string::StringSliceAdditionalSpecFns;
use vstd::utf8::{valid_utf8, decode_utf8, encode_utf8_decode_utf8};
use crate::handler::lines_view;
use crate::http_header::{HttpHeader, HeaderView, headers_view};
use crate::http_request::{HttpRequest, RequestView, empty_request};
use crate::http_request_parser::{HttpRequestParser, ParseResult, ParserState, run};
use crate::http_response::{HttpResponse, ResponseView, StatusType, response_bytes};
use crate::http_router::{HttpRouter, RouterView, routed};
use crate::text::str_eq;

verus! {

#[derive(Clone, Copy, Debug, PartialEq, Eq, Structural)]
pub enum HttpHandleError {
    /// The request asks for a WebSocket: the connection goes to the chat, unread.
    WebsocketProtocol,
    ParseRequestError,
    SocketConnectionError,
}

/// What the connection should do next.
#[derive(Clone, Copy, Debug, PartialEq, Eq, Structural)]
pub enum SessionStep {
    /// Peek again and hand over what was seen.
    PeekMore,
    /// Read and drop this many bytes, then send the answer of `respond`.
    Drain(usize),
    /// Stop with this outcome; nothing is to be read from the connection.
    Stop(HttpHandleError),
}

/// Relies on `std::str::from_utf8`: the bytes are taken as they are when they are UTF-8, and
/// refused when they are not.
#[verifier::external_body]
fn utf8_text(b: &[u8]) -> (r: Option<&str>)
    ensures
        match r {
            Some(s) => s.spec_bytes() == b@,
            None => !valid_utf8(b@),
        },
{
    std::str::from_utf8(b).ok()
}

/// The request asks for a WebSocket: a header `Upgrade: websocket`, exactly so.
pub open spec fn is_upgrade(headers: Seq<HeaderView>) -> bool {
    exists|i: int| 0 <= i < headers.len() && (#[trigger] headers[i]).name == "Upgrade"@
        && headers[i].value == "websocket"@
}

pub fn is_websocket_request(headers: &Vec<HttpHeader>) -> (r: bool)
    ensures
        r == is_upgrade(headers_view(headers@)),
{
    let mut i: usize = 0;
    while i < headers.len()
        invariant
            i <= headers@.len(),
            forall|j: int| 0 <= j < i ==> !((#[trigger] headers_view(headers@)[j]).name == "Upgrade"@
                && headers_view(headers@)[j].value == "websocket"@),
        decreases headers@.len() - i,
    {
        if str_eq(headers[i].name.as_str(), "Upgrade") && str_eq(headers[i].value.as_str(), "websocket") {
            assert(headers_view(headers@)[i as int] == headers@[i as int]@);
            return true;
        }
        assert(headers_view(headers@)[i as int] == headers@[i as int]@);
        i = i + 1;
    }
    false
}

/// The parser's state, the request so far, and how many bytes were peeked in all.
pub ghost struct PeekView {
    pub parser: ParserState,
    pub request: RequestView,
    pub total: nat,
}

/// What one peeked chunk does: an empty chunk means the peer is gone; bytes that are not UTF-8
/// or break the grammar end the session; a complete head is either a WebSocket request, which
/// leaves the connection unread, or a request whose bytes are all to be drained.
pub open spec fn after_peek(s: PeekView, chunk: Seq<u8>) -> (PeekView, SessionStep) {
    if chunk.len() == 0 {
        (s, SessionStep::Stop(HttpHandleError::SocketConnectionError))
    } else if !valid_utf8(chunk) {
        (s, SessionStep::Stop(HttpHandleError::ParseRequestError))
    } else {
        let (p, r, res) = run(s.parser, s.request, decode_utf8(chunk));
        let s2 = PeekView { parser: p, request: r, total: s.total + chunk.len() };
        if res == ParseResult::Bad {
            (s2, SessionStep::Stop(HttpHandleError::ParseRequestError))
        } else if res == ParseResult::Indeterminate {
            (s2, SessionStep::PeekMore)
        } else if is_upgrade(r.headers) {
            (s2, SessionStep::Stop(HttpHandleError::WebsocketProtocol))
        } else {
            (s2, SessionStep::Drain(s2.total as usize))
        }
    }
}

pub struct HttpSession {
    request: HttpRequest,
    response: HttpResponse,
    request_parser: HttpRequestParser,
    router: Arc<HttpRouter>,
    total: usize,
}

impl HttpSession {
    pub closed spec fn peek_view(&self) -> PeekView {
        PeekView { parser: self.request_parser@, request: self.request@, total: self.total as nat }
    }

    pub closed spec fn response_view(&self) -> ResponseView {
        self.response@
    }

    pub closed spec fn router_view(&self) -> RouterView {
        (*self.router)@
    }

    pub fn new(router: Arc<HttpRouter>) -> (s: Self)
        ensures
            s.peek_view() == (PeekView { parser: ParserState::MethodStart, request: empty_request(), total: 0 }),
            s.response_view() == (ResponseView { status: StatusType::Success, headers: Seq::empty(), body: Seq::empty() }),
            s.router_view() == (*router)@,
    {
        Self {
            request: HttpRequest::default(),
            response: HttpResponse::default(),
            request_parser: HttpRequestParser::new(),
            router,
            total: 0,
        }
    }

    /// The request read so far.
    pub fn request(&self) -> (r: &HttpRequest)
        ensures
            r@ == self.peek_view().request,
    {
        &self.request
    }

    /// Takes what a peek returned, and says what to do next.
    pub fn on_peeked(&mut self, chunk: &[u8]) -> (r: SessionStep)
        requires
            old(self).peek_view().total + chunk@.len() <= usize::MAX,
        ensures
            (final(self).peek_view(), r) == after_peek(old(self).peek_view(), chunk@),
            final(self).response_view() == old(self).response_view(),
            final(self).router_view() == old(self).router_view(),
    {
        if chunk.len() == 0 {
            return SessionStep::Stop(HttpHandleError::SocketConnectionError);
        }
        let input = match utf8_text(chunk) {
            Some(input) => input,
            None => {
                return SessionStep::Stop(HttpHandleError::ParseRequestError);
            },
        };
        proof {
            encode_utf8_decode_utf8(input@);
            vstd::utf8::encode_utf8_valid_utf8(input@);
        }
        self.total = self.total + chunk.len();
        match self.request_parser.parse(&mut self.request, input) {
            ParseResult::Complete => {},
            ParseResult::Indeterminate => {
                return SessionStep::PeekMore;
            },
            ParseResult::Bad => {
                return SessionStep::Stop(HttpHandleError::ParseRequestError);
            },
        }
        if is_websocket_request(&self.request.headers) {
            return SessionStep::Stop(HttpHandleError::WebsocketProtocol);
        }
        SessionStep::Drain(self.total)
    }

    /// Routes the request, and returns the bytes of the response to send.
    pub fn respond(&mut self, log: &mut Vec<String>) -> (r: Vec<u8>)
        ensures
            (final(self).response_view(), lines_view(final(log)@)) == routed(
                old(self).router_view(),
                old(self).peek_view().request,
                old(self).response_view(),
                lines_view(old(log)@),
            ),
            r@ == response_bytes(final(self).response_view()),
            final(self).peek_view() == old(self).peek_view(),
            final(self).router_view() == old(self).router_view(),
    {
        self.router.handle(&self.request, &mut self.response, log);
        self.response.bytes()
    }
}

/// Feeding peeked chunks until a step other than `PeekMore`: the steps taken, in order.
pub open spec fn peek_steps(s: PeekView, chunks: Seq<Seq<u8>>) -> Seq<SessionStep>
    decreases chunks.len(),
{
    if chunks.len() == 0 {
        Seq::empty()
    } else {
        let (s2, step) = after_peek(s, chunks[0]);
        if step == SessionStep::PeekMore {
            seq![step] + peek_steps(s2, chunks.drop_first())
        } else {
            seq![step]
        }
    }
}

/// The sum of the lengths of the chunks.
pub open spec fn total_len(chunks: Seq<Seq<u8>>) -> nat
    decreases chunks.len(),
{
    if chunks.len() == 0 {
        0
    } else {
        chunks[0].len() + total_len(chunks.drop_first())
    }
}

/// Once a session hands the connection to the WebSocket side, none of its steps asked for a
/// byte to be drained: the next reader sees the handshake whole. When it drains instead, it
/// drains exactly the bytes it peeked.
pub proof fn lemma_upgrade_reads_nothing(s: PeekView, chunks: Seq<Seq<u8>>)
    ensures
        peek_steps(s, chunks).len() <= chunks.len(),
        peek_steps(s, chunks).len() > 0 && peek_steps(s, chunks).last() == SessionStep::Stop(HttpHandleError::WebsocketProtocol)
            ==> forall|i: int| 0 <= i < peek_steps(s, chunks).len() ==> !(#[trigger] peek_steps(s, chunks)[i] is Drain),
        forall|i: int| 0 <= i < peek_steps(s, chunks).len() ==> (#[trigger] peek_steps(s, chunks)[i] is Drain
            ==> i == peek_steps(s, chunks).len() - 1
                && peek_steps(s, chunks)[i]->Drain_0 == (s.total + total_len(chunks.subrange(0, i + 1))) as usize),
    decreases chunks.len(),
{
    if chunks.len() > 0 {
        let (s2, step) = after_peek(s, chunks[0]);
        let steps = peek_steps(s, chunks);
        assert(chunks.subrange(0, 1).drop_first() =~= Seq::<Seq<u8>>::empty());
        assert(chunks.subrange(0, 1)[0] == chunks[0]);
        assert(total_len(Seq::<Seq<u8>>::empty()) == 0);
        assert(total_len(chunks.subrange(0, 1)) == chunks.subrange(0, 1)[0].len() + total_len(chunks.subrange(0, 1).drop_first()));
        assert(total_len(chunks.subrange(0, 1)) == chunks[0].len());
        if step == SessionStep::PeekMore {
            let rest = chunks.drop_first();
            lemma_upgrade_reads_nothing(s2, rest);
            let tail = peek_steps(s2, rest);
            assert(steps =~= seq![step] + tail);
            assert forall|i: int| 0 < i < steps.len() implies #[trigger] steps[i] == tail[i - 1] by {}
            assert forall|i: int| 0 < i < steps.len() implies total_len(#[trigger] chunks.subrange(0, i + 1)) == chunks[0].len() + total_len(rest.subrange(0, i)) by {
                assert(chunks.subrange(0, i + 1).drop_first() =~= rest.subrange(0, i));
            }
            assert(s2.total == s.total + chunks[0].len());
        }
    }
}

} // verus!
