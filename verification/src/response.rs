//! Fetch results, and the events under which they reach a script.

use crate::target::{copy_headers, header_views, Header};
use vstd::prelude::*;
use vstd::string::*;

verus! {

/// Whether `status` is in the 2xx class.
pub open spec fn is_success_status(status: u16) -> bool {
    200 <= status < 300
}

/// Tells whether an HTTP status code reports success.
pub fn status_is_success(status: u16) -> (ok: bool)
    ensures
        ok == is_success_status(status),
{
    status >= 200 && status < 300
}

/// How one fetch ended.
#[derive(Clone, Copy, Debug, PartialEq, Eq, Structural)]
pub enum Outcome {
    /// A response with a 2xx status.
    Success,
    /// A response with any other status.
    HttpError,
    /// No response: the request could not be sent or was not answered.
    TransportError,
}

/// A fetch result as plain values.
pub ghost struct ResponseView {
    pub url: Seq<char>,
    pub content: Seq<u8>,
    pub status: u16,
    pub headers: Seq<(Seq<char>, Seq<char>)>,
    pub error: bool,
    pub restart: bool,
    pub terminate: bool,
}

impl ResponseView {
    /// The view of a result that carries a flag and nothing else.
    pub open spec fn signal(error: bool, restart: bool, terminate: bool) -> ResponseView {
        ResponseView {
            url: Seq::empty(),
            content: Seq::empty(),
            status: 0,
            headers: Seq::empty(),
            error,
            restart,
            terminate,
        }
    }

    /// The view of the result made from a response.
    pub open spec fn response(
        url: Seq<char>,
        status: u16,
        headers: Seq<(Seq<char>, Seq<char>)>,
        content: Seq<u8>,
    ) -> ResponseView {
        ResponseView {
            url,
            content,
            status,
            headers,
            error: !is_success_status(status),
            restart: false,
            terminate: false,
        }
    }

    /// How the fetch ended; nothing for a restart or termination signal.
    pub open spec fn outcome(self) -> Option<Outcome> {
        if self.restart || self.terminate {
            None
        } else if !self.error {
            Some(Outcome::Success)
        } else if self.status == 0 {
            Some(Outcome::TransportError)
        } else {
            Some(Outcome::HttpError)
        }
    }
}

/// What one fetch produced. It is a value: every subscriber gets its own copy.
#[derive(Debug)]
pub struct ResponsePayload {
    /// The URL that was asked for.
    pub url: String,
    pub content: Vec<u8>,
    pub status: u16,
    pub headers: Vec<Header>,
    /// Set for a response outside the 2xx class and for a transport failure.
    pub error: bool,
    /// Set on the signal that asks the script to restart.
    pub restart: bool,
    /// Set on the signal that asks the script to stop.
    pub terminate: bool,
}

impl View for ResponsePayload {
    type V = ResponseView;

    open spec fn view(&self) -> ResponseView {
        ResponseView {
            url: self.url@,
            content: self.content@,
            status: self.status,
            headers: header_views(self.headers@),
            error: self.error,
            restart: self.restart,
            terminate: self.terminate,
        }
    }
}

/// Copies a byte buffer.
pub fn copy_bytes(bytes: &Vec<u8>) -> (copy: Vec<u8>)
    ensures
        copy@ == bytes@,
{
    let mut copy: Vec<u8> = Vec::new();
    let mut i: usize = 0;
    while i < bytes.len()
        invariant
            i <= bytes.len(),
            copy@ == bytes@.subrange(0, i as int),
        decreases bytes.len() - i,
    {
        copy.push(bytes[i]);
        assert(copy@ =~= bytes@.subrange(0, i + 1));
        i += 1;
    }
    assert(bytes@.subrange(0, i as int) =~= bytes@);
    copy
}

impl ResponsePayload {
    /// The result for a response that was read in full. A status outside the
    /// 2xx class marks it as an error.
    pub fn new(request_url: &str, status: u16, headers: Vec<Header>, content: Vec<u8>) -> (payload:
        ResponsePayload)
        ensures
            payload@ == ResponseView::response(request_url@, status, header_views(headers@), content@),
    {
        ResponsePayload {
            url: String::from_str(request_url),
            content,
            status,
            headers,
            error: !status_is_success(status),
            restart: false,
            terminate: false,
        }
    }

    fn signal(error: bool, restart: bool, terminate: bool) -> (payload: ResponsePayload)
        ensures
            payload@ == ResponseView::signal(error, restart, terminate),
    {
        let payload = ResponsePayload {
            url: String::new(),
            content: Vec::new(),
            status: 0,
            headers: Vec::new(),
            error,
            restart,
            terminate,
        };
        assert(payload@.headers =~= Seq::empty());
        payload
    }

    /// The signal that asks the script to stop.
    pub fn new_terminator() -> (payload: ResponsePayload)
        ensures
            payload@ == ResponseView::signal(false, false, true),
    {
        ResponsePayload::signal(false, false, true)
    }

    /// The signal that asks the script to restart.
    pub fn new_restart() -> (payload: ResponsePayload)
        ensures
            payload@ == ResponseView::signal(true, true, false),
    {
        ResponsePayload::signal(true, true, false)
    }

    /// The result of a request that got no response.
    pub fn new_error() -> (payload: ResponsePayload)
        ensures
            payload@ == ResponseView::signal(true, false, false),
    {
        ResponsePayload::signal(true, false, false)
    }

    /// How the fetch ended; nothing for a restart or termination signal.
    pub fn outcome(&self) -> (outcome: Option<Outcome>)
        ensures
            outcome == self@.outcome(),
    {
        if self.restart || self.terminate {
            None
        } else if !self.error {
            Some(Outcome::Success)
        } else if self.status == 0 {
            Some(Outcome::TransportError)
        } else {
            Some(Outcome::HttpError)
        }
    }

    /// A copy of this result.
    pub fn duplicate(&self) -> (copy: ResponsePayload)
        ensures
            copy@ == self@,
    {
        ResponsePayload {
            url: self.url.clone(),
            content: copy_bytes(&self.content),
            status: self.status,
            headers: copy_headers(&self.headers),
            error: self.error,
            restart: self.restart,
            terminate: self.terminate,
        }
    }
}

/// What a list of results says, as plain values.
pub open spec fn payload_views(payloads: Seq<ResponsePayload>) -> Seq<ResponseView> {
    payloads.map_values(|p: ResponsePayload| p@)
}

/// An event as plain values.
pub ghost struct EventView {
    pub kind: Seq<char>,
    pub payload: ResponseView,
    pub token: Option<u64>,
}

/// One item of a script's event queue: a fetch result, the answer to a
/// request the script sent itself, or a signal.
#[derive(Debug)]
pub struct Event {
    pub kind: String,
    pub response_payload: ResponsePayload,
    /// For the answer to a sent request, the token that `send` returned.
    pub token: Option<u64>,
}

impl View for Event {
    type V = EventView;

    open spec fn view(&self) -> EventView {
        EventView { kind: self.kind@, payload: self.response_payload@, token: self.token }
    }
}

impl Event {
    /// An event of the given kind.
    pub fn new(kind: &str, payload: ResponsePayload, token: Option<u64>) -> (event: Event)
        ensures
            event@ == (EventView { kind: kind@, payload: payload@, token }),
    {
        Event { kind: String::from_str(kind), response_payload: payload, token }
    }

    /// The result that the event carries.
    pub fn get_response_payload(&self) -> (payload: &ResponsePayload)
        ensures
            *payload == self.response_payload,
    {
        &self.response_payload
    }
}

/// The kind of an event that carries a fetch result.
pub open spec fn fetcher_kind() -> Seq<char> {
    seq!['f', 'e', 't', 'c', 'h', 'e', 'r']
}

/// The kind of an event that carries a signal.
pub open spec fn signal_kind() -> Seq<char> {
    seq!['s', 'i', 'g', 'n', 'a', 'l']
}

/// The kind of an event that answers a sent request.
pub open spec fn send_response_kind() -> Seq<char> {
    seq!['s', 'e', 'n', 'd', '_', 'r', 'e', 's', 'p', 'o', 'n', 's', 'e']
}

/// The event for what a subscription delivered: the result, or the
/// termination signal where the stream has ended.
pub fn process_payload(payload: Option<ResponsePayload>) -> (event: Event)
    ensures
        event@.kind == fetcher_kind(),
        event@.token is None,
        event@.payload == match payload {
            Some(p) => p@,
            None => ResponseView::signal(false, false, true),
        },
{
    proof {
        reveal_strlit("fetcher");
        assert("fetcher"@ =~= fetcher_kind());
    }
    match payload {
        Some(p) => Event::new("fetcher", p, None),
        None => Event::new("fetcher", ResponsePayload::new_terminator(), None),
    }
}

/// The event for a process signal: a restart request, else termination.
pub fn signal_event(restart: bool) -> (event: Event)
    ensures
        event@ == (EventView {
            kind: signal_kind(),
            payload: if restart {
                ResponseView::signal(true, true, false)
            } else {
                ResponseView::signal(false, false, true)
            },
            token: None,
        }),
{
    proof {
        reveal_strlit("signal");
        assert("signal"@ =~= signal_kind());
    }
    if restart {
        Event::new("signal", ResponsePayload::new_restart(), None)
    } else {
        Event::new("signal", ResponsePayload::new_terminator(), None)
    }
}

/// The event that answers the request sent under `token`: the response, or
/// the error result where there was none.
pub fn send_response_event(response: Option<ResponsePayload>, token: u64) -> (event: Event)
    ensures
        event@ == (EventView {
            kind: send_response_kind(),
            payload: match response {
                Some(p) => p@,
                None => ResponseView::signal(true, false, false),
            },
            token: Some(token),
        }),
{
    proof {
        reveal_strlit("send_response");
        assert("send_response"@ =~= send_response_kind());
    }
    match response {
        Some(p) => Event::new("send_response", p, Some(token)),
        None => Event::new("send_response", ResponsePayload::new_error(), Some(token)),
    }
}

/// Hands out the tokens under which sent requests are answered: 1, 2, 3, ...
#[derive(Debug)]
pub struct TokenCounter {
    last: u64,
}

impl TokenCounter {
    /// The token that the next call of `issue` returns.
    pub closed spec fn upcoming(&self) -> u64 {
        self.last
    }

    /// A counter whose first token is 1.
    pub fn new() -> (counter: TokenCounter)
        ensures
            counter.upcoming() == 1,
    {
        TokenCounter { last: 1 }
    }

    /// Issues the next token. Tokens are never zero; when the counter is
    /// used up, nothing is issued and it stays as it is.
    pub fn issue(&mut self) -> (token: Option<u64>)
        ensures
            old(self).upcoming() != 0 && old(self).upcoming() < u64::MAX ==> token == Some(
                old(self).upcoming(),
            ) && final(self).upcoming() == old(self).upcoming() + 1,
            old(self).upcoming() == 0 || old(self).upcoming() == u64::MAX ==> token is None
                && final(self).upcoming() == old(self).upcoming(),
    {
        if self.last == 0 || self.last == u64::MAX {
            None
        } else {
            let token = self.last;
            self.last = token + 1;
            Some(token)
        }
    }
}

} // verus!
