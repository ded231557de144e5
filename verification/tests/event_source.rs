use reqwest_eventsource::event_source::{Awaiting, StreamFailure, StreamStep};
use reqwest_eventsource::{
    ContentParser, ContentTypeHeader, Error, Event, EventSource, MessageEvent, ParserRegistry,
    ParserRegistryBuilder, ReadyState,
};
use std::time::Duration;

struct AnyParser;

impl ContentParser for AnyParser {
    fn can_parse(&self, _content_type: &str) -> bool {
        true
    }

    fn name(&self) -> &'static str {
        "any"
    }
}

type Source = EventSource<u32, Box<dyn ContentParser>>;

fn source() -> Source {
    EventSource::new(7).0
}

fn message(id: &str, retry: Option<Duration>) -> MessageEvent {
    MessageEvent { event: "message".to_string(), data: "d".to_string(), id: id.to_string(), retry }
}

fn sse() -> ContentTypeHeader {
    ContentTypeHeader::Present("text/event-stream".to_string())
}

#[test]
fn new_source_is_connecting_and_announces_types() {
    let (es, accept): (Source, String) = EventSource::new(7);
    assert_eq!(accept, "text/event-stream, application/vnd.amazon.eventstream");
    assert_eq!(es.ready_state(), ReadyState::Connecting);
    assert_eq!(es.last_event_id(), "");
    assert_eq!(es.last_retry(), None);
    assert!(!es.is_closed());
    assert_eq!(*es.retry_policy(), 7);
}

#[test]
fn custom_registry_keeps_accept_header() {
    let registry: ParserRegistry<Box<dyn ContentParser>> = ParserRegistryBuilder::new().build();
    let (es, accept) = EventSource::with_parser_registry(1u8, registry);
    assert_eq!(accept, "text/event-stream, application/vnd.amazon.eventstream");
    assert!(es.parser_registry().find_parser("text/event-stream").is_none());
}

#[test]
fn accepted_response_opens_the_stream() {
    let mut es = source();
    let parser = es.select_parser(200, &sse()).unwrap();
    assert_eq!(parser.name(), "Server-Sent Events (SSE) Parser");
    let event = es.on_response(Ok(())).unwrap();
    assert_eq!(event, Event::Open);
    assert_eq!(es.ready_state(), ReadyState::Open);
}

#[test]
fn missing_content_type_selects_sse_only_after_check() {
    let es = source();
    match es.select_parser(200, &ContentTypeHeader::Missing) {
        Err(Error::InvalidContentType(t)) => assert_eq!(t, ""),
        other => panic!("unexpected {:?}", other.map(|p| p.name())),
    }
}

#[test]
fn bad_status_closes() {
    let mut es = source();
    let outcome = es.select_parser(404, &sse()).map(|_| ());
    assert_eq!(outcome, Err(Error::InvalidStatusCode(404)));
    assert_eq!(es.on_response(outcome), Err(Error::InvalidStatusCode(404)));
    assert_eq!(es.ready_state(), ReadyState::Closed);
}

#[test]
fn unhandled_content_type_closes() {
    let mut es = source();
    let json = ContentTypeHeader::Present("application/json".to_string());
    let outcome = es.select_parser(200, &json).map(|_| ());
    assert_eq!(outcome, Err(Error::InvalidContentType("application/json".to_string())));
    assert_eq!(
        es.on_response(outcome),
        Err(Error::InvalidContentType("application/json".to_string()))
    );
    assert_eq!(es.ready_state(), ReadyState::Closed);
}

#[test]
fn unreadable_content_type_is_checked_as_empty() {
    let mut es = source();
    assert_eq!(
        es.select_parser(200, &ContentTypeHeader::Unreadable).map(|_| ()),
        Err(Error::InvalidContentType(String::new()))
    );
}

#[test]
fn no_parser_for_effective_content_type() {
    let registry: ParserRegistry<Box<dyn ContentParser>> = ParserRegistryBuilder::new().build();
    let (mut es, _) = EventSource::with_parser_registry(0u8, registry);
    assert_eq!(
        es.select_parser(200, &sse()).map(|_| ()),
        Err(Error::InvalidContentType("text/event-stream".to_string()))
    );
    es.handle_error(Some(Duration::from_millis(5)));
    es.on_delay_elapsed().unwrap();
    let outcome = Err(Error::ParseError(
        "No parser available for content type: text/event-stream".to_string(),
    ));
    assert_eq!(es.on_response(outcome.clone()), outcome.map(|()| Event::Open));
    assert_eq!(es.last_retry(), None);
    assert!(es.is_closed());
}

#[test]
fn unreadable_header_picks_sse_when_empty_type_is_handled() {
    let registry: ParserRegistry<Box<dyn ContentParser>> = ParserRegistryBuilder::new()
        .with_parser(Box::new(AnyParser) as Box<dyn ContentParser>)
        .with_default_parsers()
        .build();
    let (es, _) = EventSource::with_parser_registry(0u8, registry);
    let parser = es.select_parser(200, &ContentTypeHeader::Unreadable).unwrap();
    assert_eq!(parser.name(), "any");
}

#[test]
fn failed_parse_closes_with_its_message() {
    let mut es = source();
    assert_eq!(
        es.on_response(Err(Error::ParseError("boom".to_string()))),
        Err(Error::ParseError("boom".to_string()))
    );
    assert!(es.is_closed());
}

#[test]
fn events_record_their_id_and_retry() {
    let mut es = source();
    es.on_response(Ok(())).unwrap();
    assert_eq!(es.handle_event(&message("42", None)), None);
    assert_eq!(es.last_event_id(), "42");
    let d = Duration::from_millis(1500);
    assert_eq!(es.handle_event(&message("43", Some(d))), Some(d));
    assert_eq!(es.last_event_id(), "43");
    assert_eq!(es.ready_state(), ReadyState::Open);
}

#[test]
fn error_with_retry_waits_then_reconnects() {
    let mut es = source();
    es.on_response(Ok(())).unwrap();
    let d = Duration::from_millis(300);
    es.handle_error(Some(d));
    assert_eq!(es.ready_state(), ReadyState::Connecting);
    assert_eq!(es.last_retry(), Some((1, d)));
    es.handle_error(Some(d * 2));
    assert_eq!(es.last_retry(), Some((1, d * 2)));
    assert_eq!(es.on_delay_elapsed(), Ok(()));
    assert_eq!(es.ready_state(), ReadyState::Connecting);
    es.on_response(Ok(())).unwrap();
    assert_eq!(es.last_retry(), None);
    assert_eq!(es.ready_state(), ReadyState::Open);
}

#[test]
fn error_without_retry_closes() {
    let mut es = source();
    es.handle_error(None);
    assert_eq!(es.ready_state(), ReadyState::Closed);
}

#[test]
fn unsendable_last_event_id_closes_on_reconnect() {
    let mut es = source();
    es.on_response(Ok(())).unwrap();
    es.handle_event(&message("a\nb", None));
    es.handle_error(Some(Duration::from_millis(1)));
    assert_eq!(es.on_delay_elapsed(), Err(Error::InvalidLastEventId("a\nb".to_string())));
    assert_eq!(es.ready_state(), ReadyState::Closed);
}

#[test]
fn non_ascii_last_event_id_is_sendable() {
    let mut es = source();
    es.handle_event(&message("é-1", None));
    es.handle_error(Some(Duration::from_millis(1)));
    assert_eq!(es.on_delay_elapsed(), Ok(()));
}

#[test]
fn awaiting_follows_the_state() {
    let mut es = source();
    assert_eq!(es.awaiting(), Awaiting::Response);
    es.on_response(Ok(())).unwrap();
    assert_eq!(es.awaiting(), Awaiting::Stream);
    es.handle_error(Some(Duration::from_millis(1)));
    assert_eq!(es.awaiting(), Awaiting::Delay);
    es.on_delay_elapsed().unwrap();
    assert_eq!(es.awaiting(), Awaiting::Response);
    es.close();
    assert_eq!(es.awaiting(), Awaiting::Nothing);
}

#[test]
fn close_and_policy() {
    let mut es = source();
    es.set_retry_policy(9);
    assert_eq!(*es.retry_policy(), 9);
    *es.retry_policy_mut() += 1;
    assert_eq!(*es.retry_policy(), 10);
    es.close();
    assert_eq!(es.ready_state(), ReadyState::Closed);
}

#[test]
fn stream_message_is_recorded_and_emitted() {
    let mut es = source();
    es.on_response(Ok(())).unwrap();
    let d = Duration::from_millis(250);
    let m = message("7", Some(d));
    assert_eq!(
        es.on_stream_item(Some(Ok(m.clone()))),
        StreamStep::Message(Event::Message(m), Some(d))
    );
    assert_eq!(es.last_event_id(), "7");
    assert_eq!(es.awaiting(), Awaiting::Stream);
}

#[test]
fn stream_error_and_end_are_failures() {
    let mut es = source();
    es.on_response(Ok(())).unwrap();
    assert_eq!(
        es.on_stream_item(Some(Err("bad frame".to_string()))),
        StreamStep::Failed(StreamFailure::Parser("bad frame".to_string()))
    );
    assert_eq!(es.awaiting(), Awaiting::Stream);
    assert_eq!(es.on_stream_item(None), StreamStep::Failed(StreamFailure::Ended));
    assert_eq!(es.last_event_id(), "");
    es.handle_error(Some(Duration::from_millis(1)));
    assert_eq!(es.awaiting(), Awaiting::Delay);
}

#[test]
fn closing_while_a_response_is_pending() {
    let mut es = source();
    es.close();
    assert!(es.is_closed());
    assert_eq!(es.awaiting(), Awaiting::Nothing);
    assert_eq!(es.ready_state(), ReadyState::Closed);
}

#[test]
fn message_converts_into_event() {
    let m = message("1", None);
    assert_eq!(Event::from(m.clone()), Event::Message(m));
}
