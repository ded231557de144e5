# reqwest-eventsource (verified core)

An event source over HTTP: Server-Sent Events and the Amazon EventStream
binary framing, a registry that picks a content parser by content type, and
the reconnection decisions of the event source.

- `src/` is the library, verified with Verus:
  - `amazon_eventstream.rs`: the EventStream framing (prelude, headers,
    payload, CRC) and the decoding of header values and payloads;
  - `parser.rs`: content parsers, the registry and its builder, and the
    chunk accumulation of the EventStream reader;
  - `event_source.rs`: response checks and the state machine of the event
    source (connecting, open, closed; retries);
  - `text.rs`: byte-level prefix, suffix and substring tests;
  - `message.rs`: message events;
  - `bindings.rs`: the trusted calls into std, serde_json, base64 and reqwest.
- `app/` holds the reqwest plumbing: sending requests, polling responses,
  bodies and reconnection delays, and the retry policy.
- `tests/` runs the library on concrete inputs.

An EventStream message's event type is the `type` member of the JSON
document carried, base64-encoded, in its payload's `bytes` member (as Amazon
Bedrock streams carry `content_block_delta`, `message_stop`, ...), and
`message` when the payload carries no such document; its data is that
document, or else the payload itself.
