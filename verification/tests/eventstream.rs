use reqwest_eventsource::amazon_eventstream::{
    event_from_payload, parse_header, parse_headers, FrameError, Headers,
};
use reqwest_eventsource::parser::AmazonEventStreamParser;
use reqwest_eventsource::{parse_eventstream_message, parse_eventstream_messages, HeaderValue};

fn frame(headers: &[u8], payload: &[u8]) -> Vec<u8> {
    let total = (16 + headers.len() + payload.len()) as u32;
    let mut out = Vec::new();
    out.extend_from_slice(&total.to_be_bytes());
    out.extend_from_slice(&(headers.len() as u32).to_be_bytes());
    out.extend_from_slice(&[0xde, 0xad, 0xbe, 0xef]);
    out.extend_from_slice(headers);
    out.extend_from_slice(payload);
    out.extend_from_slice(&[1, 2, 3, 4]);
    out
}

fn header(name: &[u8], value_type: u8, value: &[u8]) -> Vec<u8> {
    let mut out = vec![name.len() as u8];
    out.extend_from_slice(name);
    out.push(value_type);
    out.extend_from_slice(&(value.len() as u16).to_be_bytes());
    out.extend_from_slice(value);
    out
}

#[test]
fn header_bool_and_byte() {
    let h = header(b"flag", 0, &[7]);
    let (rest, (name, value)) = parse_header(&h).unwrap();
    assert!(rest.is_empty());
    assert_eq!(name, "flag");
    assert!(matches!(value, HeaderValue::Bool(true)));
    let h = header(b"flag", 0, &[]);
    assert!(matches!(parse_header(&h).unwrap().1 .1, HeaderValue::Bool(false)));
    let h = header(b"b", 1, &[0xff]);
    assert!(matches!(parse_header(&h).unwrap().1 .1, HeaderValue::Byte(-1)));
    let h = header(b"b", 1, &[0x7f]);
    assert!(matches!(parse_header(&h).unwrap().1 .1, HeaderValue::Byte(127)));
}

#[test]
fn header_numbers_are_big_endian_and_signed() {
    let h = header(b"s", 2, &[0xff, 0xfe]);
    assert!(matches!(parse_header(&h).unwrap().1 .1, HeaderValue::Short(-2)));
    let h = header(b"i", 3, &[0x00, 0x01, 0x02, 0x03]);
    assert!(matches!(parse_header(&h).unwrap().1 .1, HeaderValue::Int(0x010203)));
    let h = header(b"l", 4, &[0x80, 0, 0, 0, 0, 0, 0, 0]);
    assert!(matches!(parse_header(&h).unwrap().1 .1, HeaderValue::Long(i64::MIN)));
    let h = header(b"t", 7, &[0, 0, 0, 0, 0, 0, 1, 0]);
    assert!(matches!(parse_header(&h).unwrap().1 .1, HeaderValue::Timestamp(256)));
}

#[test]
fn header_numbers_of_wrong_length_read_as_zero() {
    let h = header(b"s", 2, &[1, 2, 3]);
    assert!(matches!(parse_header(&h).unwrap().1 .1, HeaderValue::Short(0)));
    let h = header(b"i", 3, &[1]);
    assert!(matches!(parse_header(&h).unwrap().1 .1, HeaderValue::Int(0)));
    let h = header(b"l", 4, &[1, 2]);
    assert!(matches!(parse_header(&h).unwrap().1 .1, HeaderValue::Long(0)));
}

#[test]
fn header_bytes_strings_and_unknown_types() {
    let h = header(b":event-type", 6, b"chunk");
    match parse_header(&h).unwrap().1 .1 {
        HeaderValue::String(s) => assert_eq!(s, "chunk"),
        other => panic!("unexpected {:?}", other),
    }
    let h = header(b"u", 8, &[9; 16]);
    match parse_header(&h).unwrap().1 .1 {
        HeaderValue::Uuid(v) => assert_eq!(v, vec![9; 16]),
        other => panic!("unexpected {:?}", other),
    }
    let h = header(b"x", 5, &[1, 2]);
    match parse_header(&h).unwrap().1 .1 {
        HeaderValue::ByteArray(v) => assert_eq!(v, vec![1, 2]),
        other => panic!("unexpected {:?}", other),
    }
    let h = header(b"x", 42, &[3]);
    match parse_header(&h).unwrap().1 .1 {
        HeaderValue::ByteArray(v) => assert_eq!(v, vec![3]),
        other => panic!("unexpected {:?}", other),
    }
}

#[test]
fn header_name_is_read_lossily() {
    let h = header(&[b'a', 0xff, b'b'], 6, &[0xc3, 0x28]);
    let (_, (name, value)) = parse_header(&h).unwrap();
    assert_eq!(name, "a\u{fffd}b");
    match value {
        HeaderValue::String(s) => assert_eq!(s, "\u{fffd}("),
        other => panic!("unexpected {:?}", other),
    }
}

#[test]
fn header_truncated_reports_where_reading_stopped() {
    assert_eq!(parse_header(&[]).unwrap_err(), FrameError::UnexpectedEnd(0));
    let h = header(b"name", 6, b"value");
    assert_eq!(parse_header(&h[..h.len() - 1]).unwrap_err(), FrameError::UnexpectedEnd(8));
    assert_eq!(parse_header(&h[..3]).unwrap_err(), FrameError::UnexpectedEnd(1));
    assert_eq!(parse_header(&h[..5]).unwrap_err(), FrameError::UnexpectedEnd(5));
    assert_eq!(parse_header(&h[..7]).unwrap_err(), FrameError::UnexpectedEnd(6));
}

#[test]
fn headers_stop_at_first_incomplete() {
    let mut hs = header(b"a", 0, &[1]);
    hs.extend(header(b"b", 6, b"x"));
    hs.extend_from_slice(&[5, b'c']);
    let (rest, headers) = parse_headers(&hs);
    assert_eq!(rest, &[5, b'c']);
    assert_eq!(headers.len(), 2);
    assert!(matches!(headers.get("a"), Some(HeaderValue::Bool(true))));
    match headers.get("b") {
        Some(HeaderValue::String(s)) => assert_eq!(s, "x"),
        other => panic!("unexpected {:?}", other),
    }
    assert!(headers.get("c").is_none());
}

#[test]
fn later_header_of_a_name_wins() {
    let input = [1, b'k', 0, 0, 1, 1, 1, b'k', 0, 0, 1, 0, 9];
    let (rest, headers) = parse_headers(&input);
    assert_eq!(rest, &[9u8][..]);
    assert_eq!(headers.len(), 1);
    assert!(matches!(headers.get("k"), Some(HeaderValue::Bool(false))));
}

#[test]
fn headers_insert_replaces() {
    let mut headers = Headers::new();
    assert_eq!(headers.len(), 0);
    headers.insert("x".to_string(), HeaderValue::Int(1));
    headers.insert("y".to_string(), HeaderValue::Int(2));
    headers.insert("x".to_string(), HeaderValue::Int(3));
    assert_eq!(headers.len(), 2);
    assert!(matches!(headers.get("x"), Some(HeaderValue::Int(3))));
    assert!(matches!(headers.get("y"), Some(HeaderValue::Int(2))));
}

#[test]
fn payload_event_prefers_carried_text() {
    let e = event_from_payload("raw".to_string(), Some("hi".to_string()), None);
    assert_eq!(e.data, "hi");
    assert_eq!(e.event, "message");
    let e = event_from_payload("raw".to_string(), None, None);
    assert_eq!(e.data, "raw");
    assert_eq!(e.event, "message");
    assert_eq!(e.id, "");
    assert_eq!(e.retry, None);
    let e = event_from_payload(
        "raw".to_string(),
        Some("{}".to_string()),
        Some("message_stop".to_string()),
    );
    assert_eq!(e.event, "message_stop");
    assert_eq!(e.data, "{}");
}

#[test]
fn message_type_comes_from_decoded_json() {
    let payload = br#"{"bytes":"eyJ0eXBlIjoiY29udGVudF9ibG9ja19kZWx0YSIsImluZGV4IjowfQ=="}"#;
    let f = frame(&header(b":event-type", 6, b"chunk"), payload);
    let (rest, event) = parse_eventstream_message(&f).unwrap();
    assert!(rest.is_empty());
    assert_eq!(event.event, "content_block_delta");
    assert_eq!(event.data, r#"{"type":"content_block_delta","index":0}"#);
    assert_eq!(event.id, "");
    assert_eq!(event.retry, None);
}

#[test]
fn message_type_must_be_a_json_string() {
    let f = frame(&[], br#"{"bytes":"eyJ0eXBlIjo3fQ=="}"#);
    let (_, event) = parse_eventstream_message(&f).unwrap();
    assert_eq!(event.event, "message");
    assert_eq!(event.data, r#"{"type":7}"#);
}

#[test]
fn message_with_base64_json_payload() {
    let f = frame(&header(b":event-type", 6, b"chunk"), br#"{"bytes":"aGVsbG8="}"#);
    let (rest, event) = parse_eventstream_message(&f).unwrap();
    assert!(rest.is_empty());
    assert_eq!(event.data, "hello");
    assert_eq!(event.event, "message");
    assert_eq!(event.id, "");
    assert_eq!(event.retry, None);
}

#[test]
fn message_with_plain_payload_keeps_it() {
    let f = frame(&[], b"plain text");
    let (_, event) = parse_eventstream_message(&f).unwrap();
    assert_eq!(event.data, "plain text");
    let f = frame(&[], br#"{"other":"aGVsbG8="}"#);
    assert_eq!(parse_eventstream_message(&f).unwrap().1.data, r#"{"other":"aGVsbG8="}"#);
    let f = frame(&[], br#"{"bytes":"not base64!"}"#);
    assert_eq!(parse_eventstream_message(&f).unwrap().1.data, r#"{"bytes":"not base64!"}"#);
    // "/w==" decodes to the single byte 0xff, which is not UTF-8.
    let f = frame(&[], br#"{"bytes":"/w=="}"#);
    assert_eq!(parse_eventstream_message(&f).unwrap().1.data, r#"{"bytes":"/w=="}"#);
    let f = frame(&[], &[b'o', b'k', 0xff]);
    assert_eq!(parse_eventstream_message(&f).unwrap().1.data, "ok\u{fffd}");
}

#[test]
fn message_leaves_following_bytes() {
    let mut f = frame(&[], b"one");
    f.extend_from_slice(&[1, 2, 3]);
    let (rest, event) = parse_eventstream_message(&f).unwrap();
    assert_eq!(rest, &[1, 2, 3]);
    assert_eq!(event.data, "one");
}

#[test]
fn message_errors_report_where_reading_stopped() {
    assert_eq!(parse_eventstream_message(&[0; 3]).unwrap_err(), FrameError::UnexpectedEnd(0));
    assert_eq!(parse_eventstream_message(&[0; 5]).unwrap_err(), FrameError::UnexpectedEnd(4));
    assert_eq!(parse_eventstream_message(&[0; 11]).unwrap_err(), FrameError::UnexpectedEnd(8));
    let f = frame(&[], b"payload");
    assert_eq!(
        parse_eventstream_message(&f[..f.len() - 1]).unwrap_err(),
        FrameError::UnexpectedEnd(f.len() - 4)
    );
    assert_eq!(parse_eventstream_message(&f[..15]).unwrap_err(), FrameError::UnexpectedEnd(12));
    let mut bad = frame(&[], b"payload");
    bad[0..4].copy_from_slice(&15u32.to_be_bytes());
    assert_eq!(parse_eventstream_message(&bad).unwrap_err(), FrameError::InvalidLength(12));
    let mut long_headers = frame(&[], b"");
    long_headers[4..8].copy_from_slice(&100u32.to_be_bytes());
    assert_eq!(
        parse_eventstream_message(&long_headers).unwrap_err(),
        FrameError::UnexpectedEnd(12)
    );
    let short_total = [0, 0, 0, 10, 0, 0, 0, 0, 0, 0, 0, 0, 0, 0, 0, 0];
    assert_eq!(
        parse_eventstream_message(&short_total).unwrap_err(),
        FrameError::InvalidLength(12)
    );
    let with_header = frame(&header(b"h", 0, &[1]), b"");
    let mut bad_total = with_header.clone();
    bad_total[0..4].copy_from_slice(&16u32.to_be_bytes());
    assert_eq!(
        parse_eventstream_message(&bad_total).unwrap_err(),
        FrameError::InvalidLength(12 + 6)
    );
}

#[test]
fn messages_read_in_order_until_incomplete() {
    let mut buf = frame(&[], b"first");
    buf.extend(frame(&header(b"h", 0, &[1]), br#"{"bytes":"c2Vjb25k"}"#));
    let whole = buf.len();
    buf.extend_from_slice(&frame(&[], b"third")[..10]);
    let events = parse_eventstream_messages(&buf);
    assert_eq!(events.len(), 2);
    assert_eq!(events[0].data, "first");
    assert_eq!(events[1].data, "second");
    assert_eq!(parse_eventstream_messages(&buf[..whole]).len(), 2);
    assert!(parse_eventstream_messages(&[]).is_empty());
}

#[test]
fn read_chunk_accumulates_until_a_message_is_whole() {
    let f = frame(&[], b"split");
    let mut buffer = Vec::new();
    let events = AmazonEventStreamParser::read_chunk(&mut buffer, &f[..7]);
    assert!(events.is_empty());
    assert_eq!(buffer, f[..7].to_vec());
    let events = AmazonEventStreamParser::read_chunk(&mut buffer, &f[7..]);
    assert_eq!(events.len(), 1);
    assert_eq!(events[0].data, "split");
    assert!(buffer.is_empty());
}

#[test]
fn read_chunk_drops_partial_tail_after_messages() {
    let mut chunk = frame(&[], b"a");
    chunk.extend_from_slice(&frame(&[], b"b")[..5]);
    let mut buffer = Vec::new();
    let events = AmazonEventStreamParser::read_chunk(&mut buffer, &chunk);
    assert_eq!(events.len(), 1);
    assert!(buffer.is_empty());
}
