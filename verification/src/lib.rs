//! An event source over HTTP responses: Server-Sent Events and the Amazon
//! EventStream binary framing, with a registry of content parsers and the
//! reconnection state machine of the event source.
pub mod bindings;
pub mod message;
pub mod amazon_eventstream;
pub mod text;
pub mod parser;
pub mod event_source;

pub use amazon_eventstream::{parse_eventstream_message, parse_eventstream_messages, HeaderValue};
pub use event_source::{
    ContentTypeHeader, Error, Event, EventSource, ReadyState, StreamFailure, StreamStep,
};
pub use message::MessageEvent;
pub use parser::{
    AmazonEventStreamParser, ContentParser, ParserRegistry, ParserRegistryBuilder,
    RegisteredParser, SseParser,
};
