//! The life of one client connection, as a state machine: the caller performs
//! the action it is given (a read, a write, a look at the shared state) and
//! reports what came of it as the next event.

use crate::proxy::rate::{decision, RateVerdict};
use crate::proxy::state::{entry_of, recorded, ProxyModel, ProxyState};
use vstd::prelude::*;

verus! {

/// Status of a health probe's successful answer.
pub const STATUS_OK: u16 = 200;

/// Status sent for a request that cannot be parsed.
pub const STATUS_BAD_REQUEST: u16 = 400;

/// Status sent for a request whose body is larger than the configured cap.
pub const STATUS_PAYLOAD_TOO_LARGE: u16 = 413;

/// Status sent for a request over the client's rate limit.
pub const STATUS_TOO_MANY_REQUESTS: u16 = 429;

/// Status sent when no upstream can be had or the upstream fails mid-exchange.
pub const STATUS_BAD_GATEWAY: u16 = 502;

/// Status kept for connection-level failures where they are told apart from 502.
pub const STATUS_SERVICE_UNAVAILABLE: u16 = 503;

/// How reading a request from the client can fail.
#[derive(Clone, Copy, Debug, PartialEq, Eq, Structural)]
pub enum RequestError {
    /// The stream ended after this many bytes of an unfinished request; with
    /// zero bytes the client has simply stopped sending.
    IncompleteRequest(usize),
    /// The request line or a header does not parse.
    MalformedRequest,
    /// The `Content-Length` header is not a number.
    InvalidContentLength,
    /// The body is not as long as `Content-Length` says.
    ContentLengthMismatch,
    /// The body is larger than the configured cap.
    RequestBodyTooLarge,
    /// Reading from the client's socket failed.
    ConnectionError,
}

/// Where a connection stands.
#[derive(Clone, Copy, Debug, PartialEq, Eq, Structural)]
pub enum Phase {
    /// An upstream connection is being obtained.
    Connecting,
    /// The next request of the client is being read.
    AwaitingRequest,
    /// The request just read is being held against the client's rate limit.
    CheckingRate,
    /// The request is being written to the upstream.
    Forwarding,
    /// The upstream's response is being read.
    AwaitingResponse,
    /// The response is being written to the client.
    Relaying,
    /// The connection is over.
    Closed,
}

/// What the caller reports back.
#[derive(Clone, Copy, Debug, PartialEq, Eq, Structural)]
pub enum Event {
    UpstreamConnected,
    UpstreamUnavailable,
    RequestRead,
    RequestFailed(RequestError),
    RateChecked(RateVerdict),
    RequestForwarded,
    ForwardFailed,
    ResponseRead,
    ResponseFailed,
    ResponseRelayed,
    RelayFailed,
}

/// What the caller is to do next.
#[derive(Clone, Copy, Debug, PartialEq, Eq, Structural)]
pub enum Action {
    /// Obtain a connection to a live upstream.
    Connect,
    /// Read one request from the client.
    ReadRequest,
    /// Hold the request against the client's rate limit.
    CheckRate,
    /// Extend the request's `x-forwarded-for` header by the client's address
    /// and write the request to the upstream.
    ForwardRequest,
    /// Read one response from the upstream.
    ReadResponse,
    /// Write the upstream's response to the client as it is.
    RelayResponse,
    /// Send an error response with this status, then read the next request.
    ReplyAndRead(u16),
    /// Send an error response with this status, then drop the connection.
    ReplyAndClose(u16),
    /// Drop the connection without a word.
    Close,
}

/// The client has gone: it closed the stream between two requests, or its
/// socket failed. No response can or need be sent.
pub open spec fn ends_session(error: RequestError) -> bool {
    error == RequestError::IncompleteRequest(0) || error == RequestError::ConnectionError
}

/// The status that answers a failed read.
pub open spec fn error_status(error: RequestError) -> u16 {
    match error {
        RequestError::RequestBodyTooLarge => STATUS_PAYLOAD_TOO_LARGE,
        RequestError::ConnectionError => STATUS_SERVICE_UNAVAILABLE,
        _ => STATUS_BAD_REQUEST,
    }
}

/// `event` is one that can follow the action that led to `phase`.
pub open spec fn expected(phase: Phase, event: Event) -> bool {
    match phase {
        Phase::Connecting => event == Event::UpstreamConnected || event
            == Event::UpstreamUnavailable,
        Phase::AwaitingRequest => event == Event::RequestRead || event is RequestFailed,
        Phase::CheckingRate => event is RateChecked,
        Phase::Forwarding => event == Event::RequestForwarded || event == Event::ForwardFailed,
        Phase::AwaitingResponse => event == Event::ResponseRead || event == Event::ResponseFailed,
        Phase::Relaying => event == Event::ResponseRelayed || event == Event::RelayFailed,
        Phase::Closed => false,
    }
}

/// The machine's rule: the phase that follows, and what the caller is to do.
/// An event that the phase does not expect drops the connection.
pub open spec fn transition(phase: Phase, event: Event) -> (Phase, Action) {
    if !expected(phase, event) {
        (Phase::Closed, Action::Close)
    } else {
        match event {
            Event::UpstreamConnected => (Phase::AwaitingRequest, Action::ReadRequest),
            Event::UpstreamUnavailable => (
                Phase::Closed,
                Action::ReplyAndClose(STATUS_BAD_GATEWAY),
            ),
            Event::RequestRead => (Phase::CheckingRate, Action::CheckRate),
            Event::RequestFailed(error) => if ends_session(error) {
                (Phase::Closed, Action::Close)
            } else {
                (Phase::AwaitingRequest, Action::ReplyAndRead(error_status(error)))
            },
            Event::RateChecked(RateVerdict::Allow) => (Phase::Forwarding, Action::ForwardRequest),
            Event::RateChecked(RateVerdict::Deny) => (
                Phase::AwaitingRequest,
                Action::ReplyAndRead(STATUS_TOO_MANY_REQUESTS),
            ),
            Event::RequestForwarded => (Phase::AwaitingResponse, Action::ReadResponse),
            Event::ForwardFailed => (Phase::Closed, Action::ReplyAndClose(STATUS_BAD_GATEWAY)),
            Event::ResponseRead => (Phase::Relaying, Action::RelayResponse),
            Event::ResponseFailed => (Phase::Closed, Action::ReplyAndClose(STATUS_BAD_GATEWAY)),
            Event::ResponseRelayed => (Phase::AwaitingRequest, Action::ReadRequest),
            Event::RelayFailed => (Phase::Closed, Action::Close),
        }
    }
}

/// The phase reached from `phase` by `events`, in order.
pub open spec fn phase_after(phase: Phase, events: Seq<Event>) -> Phase
    decreases events.len(),
{
    if events.len() == 0 {
        phase
    } else {
        transition(phase_after(phase, events.drop_last()), events.last()).0
    }
}

impl RequestError {
    /// Whether the failure means that the client has gone, so that the
    /// connection is dropped without a response.
    pub fn ends_session(&self) -> (r: bool)
        ensures
            r == ends_session(*self),
    {
        match self {
            RequestError::IncompleteRequest(read) => *read == 0,
            RequestError::ConnectionError => true,
            _ => false,
        }
    }

    /// The status of the error response that answers this failure: 413 for
    /// a body over the cap, 503 for a failed socket, 400 for everything that
    /// does not parse.
    pub fn status(&self) -> (r: u16)
        ensures
            r == error_status(*self),
    {
        match self {
            RequestError::RequestBodyTooLarge => STATUS_PAYLOAD_TOO_LARGE,
            RequestError::ConnectionError => STATUS_SERVICE_UNAVAILABLE,
            _ => STATUS_BAD_REQUEST,
        }
    }
}

/// The state of one client connection.
pub struct Connection {
    phase: Phase,
}

impl View for Connection {
    type V = Phase;

    closed spec fn view(&self) -> Phase {
        self.phase
    }
}

impl Connection {
    /// A connection just accepted, together with the first thing to do:
    /// obtain an upstream connection.
    pub fn accept() -> (r: (Connection, Action))
        ensures
            r.0@ == Phase::Connecting,
            r.1 == Action::Connect,
    {
        (Connection { phase: Phase::Connecting }, Action::Connect)
    }

    /// Where the connection stands.
    pub fn phase(&self) -> (r: Phase)
        ensures
            r == self@,
    {
        self.phase
    }

    /// Whether the connection is over.
    pub fn is_closed(&self) -> (r: bool)
        ensures
            r == (self@ == Phase::Closed),
    {
        self.phase == Phase::Closed
    }

    /// Carries out [`Action::CheckRate`]: holds the request just read
    /// against the rate limit of `client` at the time `now` (seconds on a
    /// monotonic clock), counts it if it is allowed, and says what to do
    /// with it. A connection that is not waiting for this is dropped, and
    /// nothing is counted.
    pub fn check_rate(&mut self, state: &mut ProxyState, client: u128, now: u64) -> (action: Action)
        ensures
            old(self)@ == Phase::CheckingRate ==> {
                let ruling = decision(old(state)@.limit, entry_of(old(state)@.clients, client), now);
                &&& (final(self)@, action) == transition(old(self)@, Event::RateChecked(ruling.0))
                &&& final(state)@ == (ProxyModel {
                    clients: recorded(old(state)@.clients, client, ruling.1),
                    ..old(state)@
                })
            },
            old(self)@ != Phase::CheckingRate ==> {
                &&& final(self)@ == Phase::Closed
                &&& action == Action::Close
                &&& final(state)@ == old(state)@
            },
    {
        if self.phase == Phase::CheckingRate {
            let verdict = state.check_and_increment(client, now);
            self.handle(Event::RateChecked(verdict))
        } else {
            self.phase = Phase::Closed;
            Action::Close
        }
    }

    /// Takes in what came of the last action and says what to do next.
    pub fn handle(&mut self, event: Event) -> (action: Action)
        ensures
            (final(self)@, action) == transition(old(self)@, event),
    {
        let (next, action) = match (self.phase, event) {
            (Phase::Connecting, Event::UpstreamConnected) => (
                Phase::AwaitingRequest,
                Action::ReadRequest,
            ),
            (Phase::Connecting, Event::UpstreamUnavailable) => (
                Phase::Closed,
                Action::ReplyAndClose(STATUS_BAD_GATEWAY),
            ),
            (Phase::AwaitingRequest, Event::RequestRead) => (Phase::CheckingRate, Action::CheckRate),
            (Phase::AwaitingRequest, Event::RequestFailed(error)) => {
                if error.ends_session() {
                    (Phase::Closed, Action::Close)
                } else {
                    (Phase::AwaitingRequest, Action::ReplyAndRead(error.status()))
                }
            },
            (Phase::CheckingRate, Event::RateChecked(verdict)) => match verdict {
                RateVerdict::Allow => (Phase::Forwarding, Action::ForwardRequest),
                RateVerdict::Deny => (
                    Phase::AwaitingRequest,
                    Action::ReplyAndRead(STATUS_TOO_MANY_REQUESTS),
                ),
            },
            (Phase::Forwarding, Event::RequestForwarded) => (
                Phase::AwaitingResponse,
                Action::ReadResponse,
            ),
            (Phase::Forwarding, Event::ForwardFailed) => (
                Phase::Closed,
                Action::ReplyAndClose(STATUS_BAD_GATEWAY),
            ),
            (Phase::AwaitingResponse, Event::ResponseRead) => (
                Phase::Relaying,
                Action::RelayResponse,
            ),
            (Phase::AwaitingResponse, Event::ResponseFailed) => (
                Phase::Closed,
                Action::ReplyAndClose(STATUS_BAD_GATEWAY),
            ),
            (Phase::Relaying, Event::ResponseRelayed) => (
                Phase::AwaitingRequest,
                Action::ReadRequest,
            ),
            (Phase::Relaying, Event::RelayFailed) => (Phase::Closed, Action::Close),
            _ => (Phase::Closed, Action::Close),
        };
        self.phase = next;
        action
    }
}

/// A connection that is over stays over, whatever is reported.
pub proof fn lemma_closed_is_final(events: Seq<Event>)
    ensures
        phase_after(Phase::Closed, events) == Phase::Closed,
    decreases events.len(),
{
    if events.len() > 0 {
        lemma_closed_is_final(events.drop_last());
    }
}

/// A request that does not parse, or whose body is over the cap, is answered
/// with its 4xx status (413 for the cap alone, 400 otherwise) and leaves the
/// connection open: the next request is read, and if it is well-formed and
/// within the rate limit it is forwarded.
pub proof fn lemma_protocol_error_keeps_connection_open(error: RequestError)
    requires
        !ends_session(error),
    ensures
        transition(Phase::AwaitingRequest, Event::RequestFailed(error)) == (
            Phase::AwaitingRequest,
            Action::ReplyAndRead(
                if error == RequestError::RequestBodyTooLarge {
                    STATUS_PAYLOAD_TOO_LARGE
                } else {
                    STATUS_BAD_REQUEST
                },
            ),
        ),
        phase_after(
            Phase::AwaitingRequest,
            seq![
                Event::RequestFailed(error),
                Event::RequestRead,
                Event::RateChecked(RateVerdict::Allow),
            ],
        ) == Phase::Forwarding,
{
    let events = seq![
        Event::RequestFailed(error),
        Event::RequestRead,
        Event::RateChecked(RateVerdict::Allow),
    ];
    let two = events.drop_last();
    let one = two.drop_last();
    assert(one.drop_last().len() == 0);
    assert(phase_after(Phase::AwaitingRequest, one.drop_last()) == Phase::AwaitingRequest);
    assert(one.last() == Event::RequestFailed(error));
    assert(phase_after(Phase::AwaitingRequest, one) == Phase::AwaitingRequest);
    assert(two.last() == Event::RequestRead);
    assert(phase_after(Phase::AwaitingRequest, two) == Phase::CheckingRate);
    assert(events.last() == Event::RateChecked(RateVerdict::Allow));
}

/// Whenever the proxy itself gives a connection up (no upstream to be had,
/// or the upstream failing in mid-exchange) the client is told so with a
/// 502; a connection is dropped in silence only when the client is gone or
/// the caller reports something out of turn.
pub proof fn lemma_upstream_failure_is_reported(phase: Phase, event: Event)
    requires
        expected(phase, event),
        event == Event::UpstreamUnavailable || event == Event::ForwardFailed || event
            == Event::ResponseFailed,
    ensures
        transition(phase, event) == (Phase::Closed, Action::ReplyAndClose(STATUS_BAD_GATEWAY)),
{
}

/// Only a request that was read whole and allowed by the rate limiter is
/// ever forwarded.
pub proof fn lemma_forward_only_when_allowed(phase: Phase, event: Event)
    requires
        transition(phase, event).1 == Action::ForwardRequest,
    ensures
        phase == Phase::CheckingRate,
        event == Event::RateChecked(RateVerdict::Allow),
{
}

} // verus!
