use reqwest_eventsource::text::{contains_bytes, ends_with_bytes, starts_with_bytes};
use reqwest_eventsource::{
    AmazonEventStreamParser, ContentParser, ParserRegistry, ParserRegistryBuilder, SseParser,
};

struct JsonLinesParser;

impl ContentParser for JsonLinesParser {
    fn can_parse(&self, content_type: &str) -> bool {
        content_type.contains("application/x-ndjson") || content_type.contains("application/jsonlines")
    }

    fn name(&self) -> &'static str {
        "JSON Lines Parser"
    }
}

#[test]
fn sse_parser_matches_prefix() {
    assert!(SseParser.can_parse("text/event-stream"));
    assert!(SseParser.can_parse("text/event-stream; charset=utf-8"));
    assert!(!SseParser.can_parse("application/text/event-stream"));
    assert!(!SseParser.can_parse("text/event"));
    assert_eq!(SseParser.name(), "Server-Sent Events (SSE) Parser");
}

#[test]
fn amazon_parser_matches_substring_or_suffix() {
    let p = AmazonEventStreamParser;
    assert!(p.can_parse("application/vnd.amazon.eventstream"));
    assert!(p.can_parse("application/vnd.amazon.eventstream; x=y"));
    assert!(p.can_parse("application/eventstream"));
    assert!(!p.can_parse("application/eventstream; x=y"));
    assert!(!p.can_parse("text/event-stream"));
    assert_eq!(p.name(), "Amazon EventStream Parser");
}

#[test]
fn default_registry_routes_content_types() {
    let registry: ParserRegistry<Box<dyn ContentParser>> =
        ParserRegistryBuilder::new().with_default_parsers().build();
    assert_eq!(
        registry.find_parser("text/event-stream").unwrap().name(),
        "Server-Sent Events (SSE) Parser"
    );
    assert_eq!(
        registry.find_parser("application/vnd.amazon.eventstream").unwrap().name(),
        "Amazon EventStream Parser"
    );
    assert!(registry.find_parser("application/json").is_none());
    assert!(registry.find_parser("").is_none());
}

#[test]
fn custom_parser_comes_after_defaults() {
    let registry: ParserRegistry<Box<dyn ContentParser>> = ParserRegistryBuilder::new()
        .with_default_parsers()
        .with_parser(Box::new(JsonLinesParser) as Box<dyn ContentParser>)
        .build();
    assert_eq!(
        registry.find_parser("application/x-ndjson").unwrap().name(),
        "JSON Lines Parser"
    );
    assert_eq!(
        registry.find_parser("text/event-stream").unwrap().name(),
        "Server-Sent Events (SSE) Parser"
    );
    assert!(registry.find_parser("application/xml+events").is_none());
}

#[test]
fn first_registered_parser_wins() {
    let mut registry: ParserRegistry<Box<dyn ContentParser>> = ParserRegistry::new();
    assert!(registry.find_parser("text/event-stream").is_none());
    registry.register(Box::new(JsonLinesParser));
    registry.register(Box::new(SseParser));
    registry.register(Box::new(SseParser));
    assert_eq!(
        registry.find_parser("text/event-stream").unwrap().name(),
        "Server-Sent Events (SSE) Parser"
    );
}

struct XmlEventsParser;

impl ContentParser for XmlEventsParser {
    fn can_parse(&self, content_type: &str) -> bool {
        content_type.contains("application/xml+events") || content_type.contains("text/xml+events")
    }

    fn name(&self) -> &'static str {
        "XML Events Parser"
    }
}

#[test]
fn custom_parser_example_registry() {
    let r: ParserRegistry<Box<dyn ContentParser>> = ParserRegistryBuilder::new()
        .with_default_parsers()
        .with_parser(Box::new(JsonLinesParser) as Box<dyn ContentParser>)
        .with_parser(Box::new(XmlEventsParser) as Box<dyn ContentParser>)
        .build();
    assert_eq!(r.find_parser("text/event-stream").unwrap().name(), "Server-Sent Events (SSE) Parser");
    assert_eq!(
        r.find_parser("application/vnd.amazon.eventstream").unwrap().name(),
        "Amazon EventStream Parser"
    );
    assert_eq!(r.find_parser("application/x-ndjson").unwrap().name(), "JSON Lines Parser");
    assert_eq!(r.find_parser("application/xml+events").unwrap().name(), "XML Events Parser");
    assert!(r.find_parser("application/unsupported").is_none());
}

#[test]
fn new_registry_is_default_and_empty() {
    let a: ParserRegistry<Box<dyn ContentParser>> = ParserRegistry::new();
    let b: ParserRegistry<Box<dyn ContentParser>> = ParserRegistry::default();
    assert!(a.find_parser("text/event-stream").is_none());
    assert!(b.find_parser("text/event-stream").is_none());
}

#[test]
fn supported_content_types_are_fixed() {
    let registry: ParserRegistry<Box<dyn ContentParser>> = ParserRegistry::new();
    assert_eq!(
        registry.supported_content_types(),
        vec!["text/event-stream".to_string(), "application/vnd.amazon.eventstream".to_string()]
    );
}

#[test]
fn byte_tests() {
    assert!(starts_with_bytes(b"abc", b"ab"));
    assert!(starts_with_bytes(b"abc", b""));
    assert!(!starts_with_bytes(b"ab", b"abc"));
    assert!(ends_with_bytes(b"abc", b"bc"));
    assert!(!ends_with_bytes(b"abc", b"ab"));
    assert!(contains_bytes(b"abcde", b"cd"));
    assert!(contains_bytes(b"abc", b""));
    assert!(!contains_bytes(b"abcde", b"ce"));
    assert!(!contains_bytes(b"", b"a"));
}
