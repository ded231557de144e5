//! The decisions of an event source.
//!
//! An event source sends a request, reads the response with a parser picked
//! by content type, and reconnects after errors as its retry policy says.
//! The waiting itself (on a response, on the response body, on a reconnection
//! delay) is done by its owner; this type records what is being waited on
//! and decides, for each outcome, what comes next.
use crate::bindings::{header_value_accepts, header_value_allowed};
use crate::message::MessageEvent;
use crate::parser::{
    amazon_eventstream_accepts, answers, lookup_outcome, none_picks, picks, sse_accepts,
    AmazonEventStreamParser, ContentParser, ParserRegistry, ParserRegistryBuilder,
    RegisteredParser, SseParser,
};
use std::time::Duration;
use vstd::prelude::*;
use vstd::string::{StringExecFns, StringSliceAdditionalSpecFns};
use vstd::utf8::encode_utf8;

verus! {

/// The ready state of an [`EventSource`]
#[derive(Debug, Clone, Copy, PartialEq, Eq, PartialOrd, Ord, Structural)]
pub enum ReadyState {
    /// The EventSource is waiting on a response from the endpoint
    Connecting,
    /// The EventSource is connected
    Open,
    /// The EventSource is closed and no longer emitting Events
    Closed,
}

/// Events created by the [`EventSource`]
#[derive(Debug, Clone, PartialEq, Eq)]
pub enum Event {
    /// The event fired when the connection is opened
    Open,
    /// The event fired when a [`MessageEvent`] is received
    Message(MessageEvent),
}

impl From<MessageEvent> for Event {
    fn from(event: MessageEvent) -> (r: Self) {
        Event::Message(event)
    }
}

impl vstd::std_specs::convert::FromSpecImpl<MessageEvent> for Event {
    open spec fn obeys_from_spec() -> bool {
        true
    }

    open spec fn from_spec(event: MessageEvent) -> Self {
        Event::Message(event)
    }
}

/// What the event source decides against.
#[derive(Debug, Clone, PartialEq, Eq)]
pub enum Error {
    /// The response status was not `200 OK`.
    InvalidStatusCode(u16),
    /// The response has no content type, or one that no parser handles.
    InvalidContentType(String),
    /// The last event id cannot be sent as a header value.
    InvalidLastEventId(String),
    /// The response could not be turned into a stream of events.
    ParseError(String),
}

/// The `Content-Type` header of a response.
#[derive(Debug, Clone, PartialEq, Eq)]
pub enum ContentTypeHeader {
    /// The response has no such header.
    Missing,
    /// The header holds bytes other than visible ASCII and tab.
    Unreadable,
    /// The header's text.
    Present(String),
}

/// The content type that `check_response` reads from a header: an
/// unreadable header reads as empty.
pub open spec fn checked_content_type(header: ContentTypeHeader) -> Seq<char> {
    match header {
        ContentTypeHeader::Present(s) => s@,
        _ => Seq::empty(),
    }
}

/// The content type that picks the parser for a response: a missing or
/// unreadable header reads as `text/event-stream`.
pub open spec fn effective_content_type(header: ContentTypeHeader) -> Seq<char> {
    match header {
        ContentTypeHeader::Present(s) => s@,
        _ => "text/event-stream"@,
    }
}

/// The message of the error for a content type that no parser handles.
pub open spec fn no_parser_message(content_type: Seq<char>) -> Seq<char> {
    "No parser available for content type: "@ + content_type
}

/// `r` is what `check_response` answers for a response with status
/// `status` and content-type header `header`, given the registered parsers:
/// a status other than `200 OK` and a missing header are rejected; otherwise
/// the content type (empty when the header is unreadable) is looked up, and
/// the response is accepted exactly when the lookup finds a parser.
pub open spec fn check_outcome<P: ContentParser>(
    status: u16,
    header: ContentTypeHeader,
    parsers: Seq<RegisteredParser<P>>,
    r: Result<(), Error>,
) -> bool {
    if status != 200 {
        r == Err::<(), Error>(Error::InvalidStatusCode(status))
    } else if header is Missing {
        r matches Err(Error::InvalidContentType(t)) && t@ == Seq::<char>::empty()
    } else {
        exists|content_type: &str, found: Option<int>|
            #![trigger lookup_outcome(parsers, content_type, found)]
            {
                &&& content_type@ == checked_content_type(header)
                &&& lookup_outcome(parsers, content_type, found)
                &&& (r is Ok <==> found is Some)
                &&& r is Err ==> (r matches Err(Error::InvalidContentType(t)) && t@
                    == checked_content_type(header))
            }
    }
}

/// Checks the status and content type of a response: the status must be
/// `200 OK` and some parser must handle the content type.
pub fn check_response<P: ContentParser>(
    status: u16,
    content_type: &ContentTypeHeader,
    parser_registry: &ParserRegistry<P>,
) -> (r: Result<(), Error>)
    ensures
        check_outcome(status, *content_type, parser_registry.parsers(), r),
{
    broadcast use vstd::string::group_string_axioms;

    if status != 200 {
        return Err(Error::InvalidStatusCode(status));
    }
    let text: &str = match content_type {
        ContentTypeHeader::Missing => {
            return Err(Error::InvalidContentType(String::new()));
        },
        ContentTypeHeader::Unreadable => "",
        ContentTypeHeader::Present(s) => s.as_str(),
    };
    proof {
        reveal_strlit("");
        assert(text@ == checked_content_type(*content_type));
    }
    let ghost ps = parser_registry.parsers();
    match parser_registry.find_parser(text) {
        Some(parser) => {
            proof {
                let k = choose|k: int| picks(ps, text, k) && parser == &ps[k];
                assert(lookup_outcome(ps, text, Some(k)));
            }
            Ok(())
        },
        None => {
            let t = text.to_string();
            proof {
                assert(lookup_outcome(ps, text, None));
            }
            Err(Error::InvalidContentType(t))
        },
    }
}

/// The state of an [`EventSource`] apart from its retry policy and parsers.
pub struct EventSourceState {
    /// A request has been sent and its response is awaited.
    pub response_pending: bool,
    /// A response body is being read as a stream of events.
    pub stream_open: bool,
    /// A reconnection delay is running.
    pub delay_pending: bool,
    /// The event source is closed and emits nothing more.
    pub is_closed: bool,
    /// The id of the last message received.
    pub last_event_id: Seq<char>,
    /// The retry count and delay of the last reconnection, since the last
    /// accepted response.
    pub last_retry: Option<(usize, Duration)>,
}

impl EventSourceState {
    /// The ready state this state shows.
    pub open spec fn ready_state(self) -> ReadyState {
        if self.is_closed {
            ReadyState::Closed
        } else if self.delay_pending || self.response_pending {
            ReadyState::Connecting
        } else {
            ReadyState::Open
        }
    }

    /// The event source waits on at most one thing: a running delay excludes
    /// a pending response and an open stream, and a pending response excludes
    /// an open stream.
    pub open spec fn exclusive(self) -> bool {
        &&& !(self.delay_pending && self.response_pending)
        &&& !(self.delay_pending && self.stream_open)
        &&& !(self.response_pending && self.stream_open)
    }

    /// The event source waits on at most one thing, and, while open, on
    /// exactly one: a delay, a response or a stream of events.
    pub open spec fn consistent(self) -> bool {
        &&& self.exclusive()
        &&& !self.is_closed ==> (self.delay_pending || self.response_pending || self.stream_open)
    }
}

/// What an event source waits on next.
#[derive(Debug, Clone, Copy, PartialEq, Eq, Structural)]
pub enum Awaiting {
    /// Nothing: it is closed, and its stream of events has ended.
    Nothing,
    /// The reconnection delay.
    Delay,
    /// The response to its request.
    Response,
    /// The next event of the response body.
    Stream,
}

/// Why a stream of events stopped yielding messages.
#[derive(Debug, Clone, PartialEq, Eq)]
pub enum StreamFailure {
    /// An item of the stream was an error, with its message.
    Parser(String),
    /// The stream ended.
    Ended,
}

/// What an event source makes of an item of its stream of events.
#[derive(Debug, Clone, PartialEq, Eq)]
pub enum StreamStep {
    /// A message to emit, with the reconnection time it asks for.
    Message(Event, Option<Duration>),
    /// The stream failed; the failure is to be reported and handed to the
    /// retry policy.
    Failed(StreamFailure),
}

/// Provides the decisions behind the stream of [`Event`] items: it records
/// what is awaited, and retries as the retry policy `R` says when a request
/// or a stream fails.
pub struct EventSource<R, P> {
    waiting: Waiting,
    retry_policy: R,
    last_event_id: String,
    last_retry: Option<(usize, Duration)>,
    parser_registry: ParserRegistry<P>,
}

/// What an event source waits on, and whether it is closed: at most one of
/// a response, a stream of events and a reconnection delay, and exactly one
/// while it is open.
struct Waiting {
    response: bool,
    stream: bool,
    delay: bool,
    closed: bool,
}

impl Waiting {
    #[verifier::type_invariant]
    spec fn one_at_a_time(self) -> bool {
        &&& !(self.delay && self.response)
        &&& !(self.delay && self.stream)
        &&& !(self.response && self.stream)
        &&& !self.closed ==> (self.delay || self.response || self.stream)
    }
}

impl<R, P> View for EventSource<R, P> {
    type V = EventSourceState;

    closed spec fn view(&self) -> EventSourceState {
        EventSourceState {
            response_pending: self.waiting.response,
            stream_open: self.waiting.stream,
            delay_pending: self.waiting.delay,
            is_closed: self.waiting.closed,
            last_event_id: self.last_event_id@,
            last_retry: self.last_retry,
        }
    }
}

/// The Accept header value that announces `types`: the types joined with
/// `, `, or `text/event-stream` when the joined text is not a valid header
/// value.
pub open spec fn accept_header_for(types: Seq<Seq<char>>) -> Seq<char> {
    let joined = joined_with(types, ", "@);
    if header_value_allowed(joined) {
        joined
    } else {
        "text/event-stream"@
    }
}

/// The texts `parts` joined with `separator` between each two.
pub open spec fn joined_with(parts: Seq<Seq<char>>, separator: Seq<char>) -> Seq<char>
    decreases parts.len(),
{
    if parts.len() == 0 {
        Seq::empty()
    } else if parts.len() == 1 {
        parts[0]
    } else {
        joined_with(parts.drop_last(), separator) + separator + parts.last()
    }
}

/// The views of some strings.
pub open spec fn string_views(strings: Seq<String>) -> Seq<Seq<char>> {
    strings.map_values(|s: String| s@)
}

/// Joins `parts` with `separator` between each two.
fn join_with(parts: &Vec<String>, separator: &str) -> (joined: String)
    ensures
        joined@ == joined_with(string_views(parts@), separator@),
{
    let mut joined = String::new();
    let mut i: usize = 0;
    while i < parts.len()
        invariant
            i <= parts@.len(),
            joined@ == joined_with(string_views(parts@.take(i as int)), separator@),
        decreases parts@.len() - i,
    {
        proof {
            let views = string_views(parts@.take(i + 1));
            assert(views.drop_last() =~= string_views(parts@.take(i as int)));
            assert(views.last() == parts@[i as int]@);
        }
        if i > 0 {
            joined.append(separator);
        }
        joined.append(parts[i].as_str());
        i = i + 1;
    }
    proof {
        assert(parts@.take(i as int) =~= parts@);
    }
    joined
}

impl<R, P> EventSource<R, P> {
    /// The retry policy.
    pub closed spec fn spec_retry_policy(&self) -> R {
        self.retry_policy
    }

    /// The registered parsers.
    pub closed spec fn parsers(&self) -> Seq<RegisteredParser<P>> {
        self.parser_registry.parsers()
    }

    /// A new event source with a custom parser registry: its first request is
    /// under way, nothing has been received.  Also returns the Accept header
    /// value that the request announces the supported content types with.
    pub fn with_parser_registry(retry_policy: R, parser_registry: ParserRegistry<P>) -> (r: (
        Self,
        String,
    ))
        ensures
            r.0@ == (EventSourceState {
                response_pending: true,
                stream_open: false,
                delay_pending: false,
                is_closed: false,
                last_event_id: Seq::empty(),
                last_retry: None,
            }),
            r.0@.consistent(),
            r.0.spec_retry_policy() == retry_policy,
            r.0.parsers() == parser_registry.parsers(),
            r.1@ == accept_header_for(seq!["text/event-stream"@, "application/vnd.amazon.eventstream"@]),
    {
        let types = parser_registry.supported_content_types();
        let joined = join_with(&types, ", ");
        proof {
            assert(string_views(types@) =~= seq!["text/event-stream"@, "application/vnd.amazon.eventstream"@]);
        }
        let accept = if header_value_accepts(joined.as_str()) {
            joined
        } else {
            "text/event-stream".to_string()
        };
        let source = Self {
            waiting: Waiting { response: true, stream: false, delay: false, closed: false },
            retry_policy,
            last_event_id: String::new(),
            last_retry: None,
            parser_registry,
        };
        (source, accept)
    }

    /// A new event source with the default parsers (SSE, then Amazon
    /// EventStream); otherwise as [`EventSource::with_parser_registry`].
    pub fn new(retry_policy: R) -> (r: (Self, String))
        ensures
            r.0@ == (EventSourceState {
                response_pending: true,
                stream_open: false,
                delay_pending: false,
                is_closed: false,
                last_event_id: Seq::empty(),
                last_retry: None,
            }),
            r.0@.consistent(),
            r.0.spec_retry_policy() == retry_policy,
            r.0.parsers() == seq![
                RegisteredParser::<P>::Sse(SseParser),
                RegisteredParser::<P>::AmazonEventStream(AmazonEventStreamParser),
            ],
            r.1@ == accept_header_for(seq!["text/event-stream"@, "application/vnd.amazon.eventstream"@]),
    {
        let registry = ParserRegistryBuilder::new().with_default_parsers().build();
        proof {
            assert(registry.parsers() =~= seq![
                RegisteredParser::<P>::Sse(SseParser),
                RegisteredParser::<P>::AmazonEventStream(AmazonEventStreamParser),
            ]);
        }
        Self::with_parser_registry(retry_policy, registry)
    }

    /// Close the EventSource stream and stop trying to reconnect
    pub fn close(&mut self)
        ensures
            final(self)@ == (EventSourceState { is_closed: true, ..old(self)@ }),
            final(self).spec_retry_policy() == old(self).spec_retry_policy(),
            final(self).parsers() == old(self).parsers(),
            final(self)@.consistent(),
            final(self)@.ready_state() == ReadyState::Closed,
    {
        proof {
            use_type_invariant(&self.waiting);
        }
        self.waiting = Waiting {
            response: self.waiting.response,
            stream: self.waiting.stream,
            delay: self.waiting.delay,
            closed: true,
        };
    }

    /// Set the retry policy
    pub fn set_retry_policy(&mut self, policy: R)
        ensures
            final(self)@ == old(self)@,
            final(self).spec_retry_policy() == policy,
            final(self).parsers() == old(self).parsers(),
            final(self)@.consistent(),
    {
        self.retry_policy = policy;
        proof {
            use_type_invariant(&self.waiting);
        }
    }

    /// The retry policy, to ask how long to wait before reconnecting.
    pub fn retry_policy(&self) -> (policy: &R)
        ensures
            *policy == self.spec_retry_policy(),
    {
        &self.retry_policy
    }

    /// The retry policy, to tell it a reconnection time that the server asked for.
    pub fn retry_policy_mut(&mut self) -> (policy: &mut R)
        ensures
            *policy == old(self).spec_retry_policy(),
            final(self)@ == old(self)@,
            final(self).spec_retry_policy() == *final(policy),
            final(self).parsers() == old(self).parsers(),
            final(self)@.consistent(),
    {
        proof {
            use_type_invariant(&self.waiting);
        }
        &mut self.retry_policy
    }

    /// The parser registry.
    pub fn parser_registry(&self) -> (registry: &ParserRegistry<P>)
        ensures
            registry.parsers() == self.parsers(),
    {
        &self.parser_registry
    }

    /// Get the last event id
    pub fn last_event_id(&self) -> (id: &str)
        ensures
            id@ == self@.last_event_id,
    {
        self.last_event_id.as_str()
    }

    /// The retry count and delay of the last reconnection.
    pub fn last_retry(&self) -> (last: Option<(usize, Duration)>)
        ensures
            last == self@.last_retry,
    {
        self.last_retry
    }

    /// Whether the event source is closed.
    pub fn is_closed(&self) -> (closed: bool)
        ensures
            closed == self@.is_closed,
            self@.consistent(),
    {
        proof {
            use_type_invariant(&self.waiting);
        }
        self.waiting.closed
    }

    /// Get the current ready state
    pub fn ready_state(&self) -> (state: ReadyState)
        ensures
            state == self@.ready_state(),
            self@.consistent(),
    {
        proof {
            use_type_invariant(&self.waiting);
        }
        if self.waiting.closed {
            ReadyState::Closed
        } else if self.waiting.delay || self.waiting.response {
            ReadyState::Connecting
        } else {
            ReadyState::Open
        }
    }

    /// What the event source waits on next: nothing once closed, otherwise
    /// the delay, the response or the stream, whichever it awaits.
    pub fn awaiting(&self) -> (next: Awaiting)
        ensures
            next == (if self@.is_closed {
                Awaiting::Nothing
            } else if self@.delay_pending {
                Awaiting::Delay
            } else if self@.response_pending {
                Awaiting::Response
            } else {
                Awaiting::Stream
            }),
            self@.consistent(),
    {
        proof {
            use_type_invariant(&self.waiting);
        }
        if self.waiting.closed {
            Awaiting::Nothing
        } else if self.waiting.delay {
            Awaiting::Delay
        } else if self.waiting.response {
            Awaiting::Response
        } else {
            Awaiting::Stream
        }
    }

    /// Drops the stream of events and, when the last event id can be sent as
    /// a header value, starts waiting on a new response; otherwise reports
    /// the id and changes nothing.
    fn retry_fetch(&mut self) -> (r: Result<(), Error>)
        ensures
            final(self).spec_retry_policy() == old(self).spec_retry_policy(),
            final(self).parsers() == old(self).parsers(),
            (r is Ok) == header_value_allowed(old(self)@.last_event_id),
            r is Ok ==> final(self)@ == (EventSourceState {
                delay_pending: false,
                stream_open: false,
                response_pending: true,
                ..old(self)@
            }),
            r is Err ==> final(self)@ == old(self)@,
            r matches Err(e) ==> (e matches Error::InvalidLastEventId(id) && id@ == old(
                self,
            )@.last_event_id),
    {
        if header_value_accepts(self.last_event_id.as_str()) {
            self.waiting = Waiting {
                response: true,
                stream: false,
                delay: false,
                closed: self.waiting.closed,
            };
            Ok(())
        } else {
            Err(Error::InvalidLastEventId(self.last_event_id.clone()))
        }
    }

    /// The reconnection delay it waited on has run out: reconnect, or close
    /// when the last event id cannot be sent.
    pub fn on_delay_elapsed(&mut self) -> (r: Result<(), Error>)
        requires
            old(self)@.delay_pending,
        ensures
            old(self)@.is_closed ==> final(self)@.is_closed,
            final(self).spec_retry_policy() == old(self).spec_retry_policy(),
            final(self).parsers() == old(self).parsers(),
            (r is Ok) == header_value_allowed(old(self)@.last_event_id),
            r is Ok ==> final(self)@ == (EventSourceState {
                delay_pending: false,
                stream_open: false,
                response_pending: true,
                ..old(self)@
            }),
            r is Err ==> final(self)@ == (EventSourceState {
                delay_pending: false,
                response_pending: false,
                stream_open: false,
                is_closed: true,
                ..old(self)@
            }),
            r matches Err(e) ==> (e matches Error::InvalidLastEventId(id) && id@ == old(
                self,
            )@.last_event_id),
            final(self)@.consistent(),
            r is Ok && !old(self)@.is_closed ==> final(self)@.ready_state()
                == ReadyState::Connecting,
    {
        proof {
            use_type_invariant(&self.waiting);
        }
        let r = match self.retry_fetch() {
            Ok(()) => Ok(()),
            Err(err) => {
                self.waiting = Waiting { response: false, stream: false, delay: false, closed: true };
                Err(err)
            },
        };
        proof {
            use_type_invariant(&self.waiting);
        }
        r
    }

    /// Records a message received on the stream; returns the reconnection
    /// time it asks for, which the retry policy is to be told.
    pub fn handle_event(&mut self, event: &MessageEvent) -> (reconnection_time: Option<Duration>)
        ensures
            final(self)@ == (EventSourceState { last_event_id: event@.id, ..old(self)@ }),
            final(self).spec_retry_policy() == old(self).spec_retry_policy(),
            final(self).parsers() == old(self).parsers(),
            reconnection_time == event.retry,
            old(self)@.is_closed ==> final(self)@.is_closed,
            final(self)@.consistent(),
    {
        self.last_event_id = event.id.clone();
        proof {
            use_type_invariant(&self.waiting);
        }
        event.retry
    }

    /// A request or a stream of events failed: stop waiting on either, and
    /// wait `retry_delay` before reconnecting, or close when the retry policy
    /// gives none.
    pub fn handle_error(&mut self, retry_delay: Option<Duration>)
        ensures
            old(self)@.is_closed ==> final(self)@.is_closed,
            final(self).spec_retry_policy() == old(self).spec_retry_policy(),
            final(self).parsers() == old(self).parsers(),
            match retry_delay {
                Some(delay) => final(self)@ == (EventSourceState {
                    response_pending: false,
                    stream_open: false,
                    delay_pending: true,
                    last_retry: Some(
                        (
                            match old(self)@.last_retry {
                                Some(last) => last.0,
                                None => 1,
                            },
                            delay,
                        ),
                    ),
                    ..old(self)@
                }),
                None => final(self)@ == (EventSourceState {
                    response_pending: false,
                    stream_open: false,
                    is_closed: true,
                    ..old(self)@
                }),
            },
            final(self)@.consistent(),
    {
        if let Some(delay) = retry_delay {
            let retry_num = match self.last_retry {
                Some(last) => last.0,
                None => 1,
            };
            self.last_retry = Some((retry_num, delay));
            self.waiting = Waiting {
                response: false,
                stream: false,
                delay: true,
                closed: self.waiting.closed,
            };
        } else {
            self.waiting = Waiting {
                response: false,
                stream: false,
                delay: self.waiting.delay,
                closed: true,
            };
        }
        proof {
            use_type_invariant(&self.waiting);
        }
    }

    /// An item of the stream of events has arrived: a message is recorded
    /// (see [`EventSource::handle_event`]) and handed on with the
    /// reconnection time it asks for; an error or the end of the stream is
    /// a failure, which leaves the state as it is for the retry policy to
    /// decide on (see [`EventSource::handle_error`]).
    pub fn on_stream_item(&mut self, item: Option<Result<MessageEvent, String>>) -> (step:
        StreamStep)
        ensures
            final(self).spec_retry_policy() == old(self).spec_retry_policy(),
            final(self).parsers() == old(self).parsers(),
            final(self)@.consistent(),
            match item {
                Some(Ok(event)) => {
                    &&& final(self)@ == (EventSourceState {
                        last_event_id: event@.id,
                        ..old(self)@
                    })
                    &&& step == StreamStep::Message(Event::Message(event), event.retry)
                },
                Some(Err(message)) => {
                    &&& final(self)@ == old(self)@
                    &&& step == StreamStep::Failed(StreamFailure::Parser(message))
                },
                None => {
                    &&& final(self)@ == old(self)@
                    &&& step == StreamStep::Failed(StreamFailure::Ended)
                },
            },
    {
        proof {
            use_type_invariant(&self.waiting);
        }
        match item {
            Some(Ok(event)) => {
                let reconnection_time = self.handle_event(&event);
                StreamStep::Message(Event::Message(event), reconnection_time)
            },
            Some(Err(message)) => StreamStep::Failed(StreamFailure::Parser(message)),
            None => StreamStep::Failed(StreamFailure::Ended),
        }
    }
}

/// `r` is what `select_parser` answers: the rejection of `check_response`,
/// or the parser found by a lookup of the effective content type (the
/// header's, `text/event-stream` when it is missing or unreadable), or the
/// error that no parser handles it.
pub open spec fn selection_outcome<P: ContentParser>(
    status: u16,
    header: ContentTypeHeader,
    parsers: Seq<RegisteredParser<P>>,
    r: Result<&RegisteredParser<P>, Error>,
) -> bool {
    exists|check: Result<(), Error>|
        #![trigger check_outcome(status, header, parsers, check)]
        {
            &&& check_outcome(status, header, parsers, check)
            &&& check matches Err(e) ==> r == Err::<&RegisteredParser<P>, Error>(e)
            &&& check is Ok ==> exists|content_type: &str, found: Option<int>|
                #![trigger lookup_outcome(parsers, content_type, found)]
                {
                    &&& content_type@ == effective_content_type(header)
                    &&& lookup_outcome(parsers, content_type, found)
                    &&& match found {
                        Some(k) => r == Ok::<&RegisteredParser<P>, Error>(&parsers[k]),
                        None => r matches Err(Error::ParseError(m)) && m@ == no_parser_message(
                            effective_content_type(header),
                        ),
                    }
                }
        }
}

impl<R, P: ContentParser> EventSource<R, P> {
    /// The parser to read a response with: the response must pass
    /// `check_response`, and the parser is the one a lookup of its content
    /// type finds, `text/event-stream` when the header is missing or
    /// unreadable.
    pub fn select_parser(&self, status: u16, content_type: &ContentTypeHeader) -> (r: Result<
        &RegisteredParser<P>,
        Error,
    >)
        ensures
            selection_outcome(status, *content_type, self.parsers(), r),
    {
        let ghost ps = self.parsers();
        let check = check_response(status, content_type, &self.parser_registry);
        if let Err(e) = check {
            proof {
                assert(check_outcome(status, *content_type, ps, check));
            }
            return Err(e);
        }
        let effective: &str = match content_type {
            ContentTypeHeader::Present(s) => s.as_str(),
            _ => "text/event-stream",
        };
        assert(effective@ == effective_content_type(*content_type));
        match self.parser_registry.find_parser(effective) {
            Some(parser) => {
                let ghost k = choose|k: int| picks(ps, effective, k) && parser == &ps[k];
                let r = Ok(parser);
                proof {
                    assert(lookup_outcome(ps, effective, Some(k)));
                    assert(check_outcome(status, *content_type, ps, check));
                }
                r
            },
            None => {
                let r = Err(Error::ParseError(no_parser_text(effective)));
                proof {
                    assert(lookup_outcome(ps, effective, None));
                    assert(check_outcome(status, *content_type, ps, check));
                }
                r
            },
        }
    }

    /// The response an open event source waited on has arrived; `outcome`
    /// tells whether it was turned into a
    /// stream of events (see [`EventSource::select_parser`]), or why not.
    /// Stops waiting on the response.  A stream opens the event source and
    /// resets the retry count; a parse error resets the retry count and
    /// closes it; a rejected response closes it.
    pub fn on_response(&mut self, outcome: Result<(), Error>) -> (r: Result<Event, Error>)
        requires
            old(self)@.response_pending,
            !old(self)@.is_closed,
        ensures
            r is Ok ==> final(self)@.ready_state() == ReadyState::Open,
            r is Err ==> final(self)@.ready_state() == ReadyState::Closed,
            final(self).spec_retry_policy() == old(self).spec_retry_policy(),
            final(self).parsers() == old(self).parsers(),
            final(self)@.consistent(),
            ({
                let base = EventSourceState {
                    response_pending: false,
                    stream_open: false,
                    ..old(self)@
                };
                match outcome {
                    Ok(()) => {
                        &&& final(self)@ == (EventSourceState {
                            stream_open: true,
                            last_retry: None,
                            ..base
                        })
                        &&& r == Ok::<Event, Error>(Event::Open)
                    },
                    Err(Error::ParseError(m)) => {
                        &&& final(self)@ == (EventSourceState {
                            is_closed: true,
                            last_retry: None,
                            ..base
                        })
                        &&& r == Err::<Event, Error>(Error::ParseError(m))
                    },
                    Err(e) => {
                        &&& final(self)@ == (EventSourceState { is_closed: true, ..base })
                        &&& r == Err::<Event, Error>(e)
                    },
                }
            }),
    {
        proof {
            use_type_invariant(&self.waiting);
        }
        let closed = Waiting { response: false, stream: false, delay: false, closed: true };
        let r = match outcome {
            Ok(()) => {
                self.last_retry = None;
                self.waiting = Waiting { response: false, stream: true, delay: false, closed: false };
                Ok(Event::Open)
            },
            Err(Error::ParseError(message)) => {
                self.last_retry = None;
                self.waiting = closed;
                Err(Error::ParseError(message))
            },
            Err(err) => {
                self.waiting = closed;
                Err(err)
            },
        };
        proof {
            use_type_invariant(&self.waiting);
        }
        r
    }
}

/// The message of the error for a content type that no parser handles.
fn no_parser_text(content_type: &str) -> (text: String)
    ensures
        text@ == no_parser_message(content_type@),
{
    let mut text = "No parser available for content type: ".to_string();
    text.append(content_type);
    text
}

// ---------------------------------------------------------------------------
// Laws of the event source
// ---------------------------------------------------------------------------

/// When a `200 OK` response has a Content-Type header with text `s`, the
/// parser chosen is one that a lookup of `s` itself picks (the first
/// registered parser that answers that it handles `s`), and the errors for a
/// content type that no parser handles name `s`.
pub proof fn present_content_type_is_looked_up<P: ContentParser>(
    s: String,
    parsers: Seq<RegisteredParser<P>>,
    r: Result<&RegisteredParser<P>, Error>,
)
    requires
        selection_outcome(200, ContentTypeHeader::Present(s), parsers, r),
    ensures
        r matches Ok(p) ==> exists|content_type: &str, k: int|
            #![trigger picks(parsers, content_type, k)]
            content_type@ == s@ && picks(parsers, content_type, k) && p == &parsers[k],
        r matches Err(Error::ParseError(m)) ==> m@ == no_parser_message(s@),
        r matches Err(Error::InvalidContentType(t)) ==> t@ == s@,
        !(r matches Err(Error::InvalidStatusCode(_))),
        !(r matches Err(Error::InvalidLastEventId(_))),
{
    let header = ContentTypeHeader::Present(s);
    let check = choose|check: Result<(), Error>|
        #![trigger check_outcome(200, header, parsers, check)]
        {
            &&& check_outcome(200, header, parsers, check)
            &&& check matches Err(e) ==> r == Err::<&RegisteredParser<P>, Error>(e)
            &&& check is Ok ==> exists|content_type: &str, found: Option<int>|
                #![trigger lookup_outcome(parsers, content_type, found)]
                {
                    &&& content_type@ == effective_content_type(header)
                    &&& lookup_outcome(parsers, content_type, found)
                    &&& match found {
                        Some(k) => r == Ok::<&RegisteredParser<P>, Error>(&parsers[k]),
                        None => r matches Err(Error::ParseError(m)) && m@ == no_parser_message(
                            effective_content_type(header),
                        ),
                    }
                }
        };
    if check is Ok {
        let (content_type, found) = choose|content_type: &str, found: Option<int>|
            #![trigger lookup_outcome(parsers, content_type, found)]
            {
                &&& content_type@ == effective_content_type(header)
                &&& lookup_outcome(parsers, content_type, found)
                &&& match found {
                    Some(k) => r == Ok::<&RegisteredParser<P>, Error>(&parsers[k]),
                    None => r matches Err(Error::ParseError(m)) && m@ == no_parser_message(
                        effective_content_type(header),
                    ),
                }
            };
        if let Some(k) = found {
            assert(picks(parsers, content_type, k));
        }
    }
}

/// The default parsers: SSE, then Amazon EventStream.
pub open spec fn default_parsers<P>() -> Seq<RegisteredParser<P>> {
    seq![
        RegisteredParser::<P>::Sse(SseParser),
        RegisteredParser::<P>::AmazonEventStream(AmazonEventStreamParser),
    ]
}

/// With the default parsers, a `200 OK` response whose Content-Type header
/// has text `s` is read by the SSE parser when `s` begins with
/// `text/event-stream`, else by the Amazon EventStream parser when `s`
/// contains `amazon.eventstream` or ends with `eventstream`, and is rejected
/// with `s` as an invalid content type otherwise.
pub proof fn default_parsers_read_by_content_type<P: ContentParser>(
    s: String,
    r: Result<&RegisteredParser<P>, Error>,
)
    requires
        selection_outcome(200, ContentTypeHeader::Present(s), default_parsers::<P>(), r),
    ensures
        sse_accepts(encode_utf8(s@)) ==> r == Ok::<&RegisteredParser<P>, Error>(
            &RegisteredParser::<P>::Sse(SseParser),
        ),
        !sse_accepts(encode_utf8(s@)) && amazon_eventstream_accepts(encode_utf8(s@)) ==> r == Ok::<
            &RegisteredParser<P>,
            Error,
        >(&RegisteredParser::<P>::AmazonEventStream(AmazonEventStreamParser)),
        !sse_accepts(encode_utf8(s@)) && !amazon_eventstream_accepts(encode_utf8(s@)) ==> (r matches Err(
            Error::InvalidContentType(t),
        ) && t@ == s@),
{
    let parsers = default_parsers::<P>();
    let header = ContentTypeHeader::Present(s);
    assert(parsers[0] == RegisteredParser::<P>::Sse(SseParser));
    assert(parsers[1] == RegisteredParser::<P>::AmazonEventStream(AmazonEventStreamParser));
    let check = choose|check: Result<(), Error>|
        #![trigger check_outcome(200, header, parsers, check)]
        {
            &&& check_outcome(200, header, parsers, check)
            &&& check matches Err(e) ==> r == Err::<&RegisteredParser<P>, Error>(e)
            &&& check is Ok ==> exists|content_type: &str, found: Option<int>|
                #![trigger lookup_outcome(parsers, content_type, found)]
                {
                    &&& content_type@ == effective_content_type(header)
                    &&& lookup_outcome(parsers, content_type, found)
                    &&& match found {
                        Some(k) => r == Ok::<&RegisteredParser<P>, Error>(&parsers[k]),
                        None => r matches Err(Error::ParseError(m)) && m@ == no_parser_message(
                            effective_content_type(header),
                        ),
                    }
                }
        };
    let (ct0, found0) = choose|content_type: &str, found: Option<int>|
        #![trigger lookup_outcome(parsers, content_type, found)]
        {
            &&& content_type@ == checked_content_type(header)
            &&& lookup_outcome(parsers, content_type, found)
            &&& (check is Ok <==> found is Some)
            &&& check is Err ==> (check matches Err(Error::InvalidContentType(t)) && t@
                == checked_content_type(header))
        };
    assert(ct0.spec_bytes() == encode_utf8(s@));
    if check is Ok {
        let (ct, found) = choose|content_type: &str, found: Option<int>|
            #![trigger lookup_outcome(parsers, content_type, found)]
            {
                &&& content_type@ == effective_content_type(header)
                &&& lookup_outcome(parsers, content_type, found)
                &&& match found {
                    Some(k) => r == Ok::<&RegisteredParser<P>, Error>(&parsers[k]),
                    None => r matches Err(Error::ParseError(m)) && m@ == no_parser_message(
                        effective_content_type(header),
                    ),
                }
            };
        assert(ct.spec_bytes() == encode_utf8(s@));
        if found is None {
            assert(answers(parsers[0], ct, false));
            assert(answers(parsers[1], ct, false));
            assert(answers(parsers[0], ct0, true) || answers(parsers[1], ct0, true));
        }
    } else {
        if found0 is None {
            assert(answers(parsers[0], ct0, false));
            assert(answers(parsers[1], ct0, false));
        }
    }
}

/// The ready state depends only on what is awaited and on whether the
/// source is closed: closed is `Closed`; open and waiting on a response or a
/// reconnection delay is `Connecting`, whatever the last event id and retry;
/// open and waiting on neither is `Open`.
pub proof fn ready_state_follows_what_is_awaited(
    state: EventSourceState,
    last_event_id: Seq<char>,
    last_retry: Option<(usize, Duration)>,
)
    ensures
        state.is_closed ==> state.ready_state() == ReadyState::Closed,
        !state.is_closed && (state.response_pending || state.delay_pending) ==> state.ready_state()
            == ReadyState::Connecting,
        !state.is_closed && !state.response_pending && !state.delay_pending ==> state.ready_state()
            == ReadyState::Open,
        (EventSourceState { last_event_id, last_retry, ..state }).ready_state()
            == state.ready_state(),
{
}

} // verus!
