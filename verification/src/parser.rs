//! Content parsers and the registry that picks one by content type.
//!
//! A parser says which content types it handles; turning a response body
//! into events is the business of the code that owns the response.  The
//! registry keeps its parsers in the order they were registered and picks
//! the first that handles a content type.
use crate::amazon_eventstream::{
    parse_eventstream_messages, spec_parse_message, spec_parse_messages,
    unreadable_start_yields_no_events,
};
use crate::message::{message_views, MessageEvent};
use crate::text::{
    bytes_contain, bytes_end_with, bytes_start_with, contains_bytes, ends_with_bytes,
    starts_with_bytes,
};
use vstd::prelude::*;
use vstd::string::StringSliceAdditionalSpecFns;

verus! {

/// A parser for some content types.
pub trait ContentParser: Send + Sync {
    /// Check if this parser can handle the given content type
    fn can_parse(&self, content_type: &str) -> bool;

    /// Get the name/description of this parser
    fn name(&self) -> &'static str;
}

/// A boxed parser answers as the parser in the box.
impl<T: ContentParser + ?Sized> ContentParser for Box<T> {
    fn can_parse(&self, content_type: &str) -> (r: bool)
        ensures
            call_ensures(T::can_parse, (&**self, content_type), r),
    {
        (**self).can_parse(content_type)
    }

    fn name(&self) -> (n: &'static str)
        ensures
            call_ensures(T::name, (&**self,), n),
    {
        (**self).name()
    }
}

/// The content type of Server-Sent Events.
pub open spec fn sse_content_type() -> Seq<u8> {
    "text/event-stream".spec_bytes()
}

/// The content types, as UTF-8 bytes, that the SSE parser handles: those
/// that begin with `text/event-stream`.
pub open spec fn sse_accepts(content_type: Seq<u8>) -> bool {
    bytes_start_with(content_type, sse_content_type())
}

/// The content types, as UTF-8 bytes, that the Amazon EventStream parser
/// handles: those that contain `amazon.eventstream` or end with `eventstream`.
pub open spec fn amazon_eventstream_accepts(content_type: Seq<u8>) -> bool {
    bytes_contain(content_type, "amazon.eventstream".spec_bytes()) || bytes_end_with(
        content_type,
        "eventstream".spec_bytes(),
    )
}

/// Default SSE parser for text/event-stream
pub struct SseParser;

impl ContentParser for SseParser {
    fn can_parse(&self, content_type: &str) -> (r: bool)
        ensures
            r == sse_accepts(content_type.spec_bytes()),
    {
        starts_with_bytes(content_type.as_bytes(), "text/event-stream".as_bytes())
    }

    fn name(&self) -> (n: &'static str)
        ensures
            n@ == "Server-Sent Events (SSE) Parser"@,
    {
        "Server-Sent Events (SSE) Parser"
    }
}

/// Parser for Amazon EventStream format
pub struct AmazonEventStreamParser;

impl ContentParser for AmazonEventStreamParser {
    fn can_parse(&self, content_type: &str) -> (r: bool)
        ensures
            r == amazon_eventstream_accepts(content_type.spec_bytes()),
    {
        contains_bytes(content_type.as_bytes(), "amazon.eventstream".as_bytes()) || ends_with_bytes(
            content_type.as_bytes(),
            "eventstream".as_bytes(),
        )
    }

    fn name(&self) -> (n: &'static str)
        ensures
            n@ == "Amazon EventStream Parser"@,
    {
        "Amazon EventStream Parser"
    }
}

impl AmazonEventStreamParser {
    /// Takes the next chunk of a response body into `buffer` and reads the
    /// messages that the buffer now holds.  When it holds any, they are
    /// returned and the whole buffer is dropped, bytes after the last whole
    /// message included; otherwise the buffer is kept for the next chunk.
    pub fn read_chunk(buffer: &mut Vec<u8>, chunk: &[u8]) -> (events: Vec<MessageEvent>)
        ensures
            message_views(events@) == spec_parse_messages(old(buffer)@ + chunk@),
            final(buffer)@ == (if events@.len() > 0 {
                Seq::<u8>::empty()
            } else {
                old(buffer)@ + chunk@
            }),
            spec_parse_message(old(buffer)@ + chunk@) is Err ==> events@.len() == 0
                && final(buffer)@ == old(buffer)@ + chunk@,
    {
        let ghost joined = old(buffer)@ + chunk@;
        let mut i: usize = 0;
        while i < chunk.len()
            invariant
                i <= chunk@.len(),
                buffer@ == old(buffer)@ + chunk@.take(i as int),
            decreases chunk@.len() - i,
        {
            buffer.push(chunk[i]);
            i = i + 1;
            proof {
                assert(chunk@.take(i as int) =~= chunk@.take(i - 1).push(chunk@[i - 1]));
            }
        }
        proof {
            assert(chunk@.take(chunk@.len() as int) =~= chunk@);
        }
        let events = parse_eventstream_messages(buffer.as_slice());
        proof {
            unreadable_start_yields_no_events(joined);
            assert(message_views(events@).len() == events@.len());
        }
        if events.len() > 0 {
            buffer.clear();
        }
        events
    }
}

/// A parser held by a registry: one of the two built in, or one of the
/// user's, of type `P`.
pub enum RegisteredParser<P> {
    Sse(SseParser),
    AmazonEventStream(AmazonEventStreamParser),
    Custom(P),
}

/// `parser` can answer `answer` when asked whether it handles
/// `content_type`: a built-in parser answers as its content types say, a
/// user's parser as its own `can_parse` may.
pub open spec fn answers<P: ContentParser>(
    parser: RegisteredParser<P>,
    content_type: &str,
    answer: bool,
) -> bool {
    match parser {
        RegisteredParser::Sse(_) => sse_accepts(content_type.spec_bytes()) == answer,
        RegisteredParser::AmazonEventStream(_) => amazon_eventstream_accepts(
            content_type.spec_bytes(),
        ) == answer,
        RegisteredParser::Custom(p) => call_ensures(P::can_parse, (&p, content_type), answer),
    }
}

impl<P: ContentParser> ContentParser for RegisteredParser<P> {
    fn can_parse(&self, content_type: &str) -> (r: bool)
        ensures
            answers(*self, content_type, r),
    {
        match self {
            RegisteredParser::Sse(p) => p.can_parse(content_type),
            RegisteredParser::AmazonEventStream(p) => p.can_parse(content_type),
            RegisteredParser::Custom(p) => p.can_parse(content_type),
        }
    }

    fn name(&self) -> (n: &'static str)
        ensures
            self is Sse ==> n@ == "Server-Sent Events (SSE) Parser"@,
            self is AmazonEventStream ==> n@ == "Amazon EventStream Parser"@,
            self matches RegisteredParser::Custom(p) ==> call_ensures(P::name, (&p,), n),
    {
        match self {
            RegisteredParser::Sse(p) => p.name(),
            RegisteredParser::AmazonEventStream(p) => p.name(),
            RegisteredParser::Custom(p) => p.name(),
        }
    }
}

/// Asked in order, `parsers[k]` answered that it handles `content_type` and
/// every parser before it answered that it does not.
pub open spec fn picks<P: ContentParser>(
    parsers: Seq<RegisteredParser<P>>,
    content_type: &str,
    k: int,
) -> bool {
    &&& 0 <= k < parsers.len()
    &&& answers(parsers[k], content_type, true)
    &&& forall|j: int| 0 <= j < k ==> answers(#[trigger] parsers[j], content_type, false)
}

/// Asked in order, every parser answered that it does not handle
/// `content_type`.
pub open spec fn none_picks<P: ContentParser>(
    parsers: Seq<RegisteredParser<P>>,
    content_type: &str,
) -> bool {
    forall|j: int| 0 <= j < parsers.len() ==> answers(#[trigger] parsers[j], content_type, false)
}

/// The outcome of a lookup of `content_type` in `parsers`: the index of the
/// parser found, or `None`.
pub open spec fn lookup_outcome<P: ContentParser>(
    parsers: Seq<RegisteredParser<P>>,
    content_type: &str,
    found: Option<int>,
) -> bool {
    match found {
        Some(k) => picks(parsers, content_type, k),
        None => none_picks(parsers, content_type),
    }
}

/// Registry for content type parsers
pub struct ParserRegistry<P> {
    parsers: Vec<RegisteredParser<P>>,
}

impl<P> ParserRegistry<P> {
    /// The parsers, in the order they were registered.
    pub closed spec fn parsers(&self) -> Seq<RegisteredParser<P>> {
        self.parsers@
    }

    /// An empty registry.
    pub fn new() -> (r: Self)
        ensures
            r.parsers() == Seq::<RegisteredParser<P>>::empty(),
    {
        Self { parsers: Vec::new() }
    }

    /// Register a new parser
    pub fn register(&mut self, parser: P)
        ensures
            final(self).parsers() == old(self).parsers().push(RegisteredParser::Custom(parser)),
    {
        self.parsers.push(RegisteredParser::Custom(parser));
    }

    /// Registers one of the built-in parsers.
    fn register_builtin(&mut self, parser: RegisteredParser<P>)
        ensures
            final(self).parsers() == old(self).parsers().push(parser),
    {
        self.parsers.push(parser);
    }

    /// Get all supported content types
    pub fn supported_content_types(&self) -> (types: Vec<String>)
        ensures
            types@.len() == 2,
            types@[0]@ == "text/event-stream"@,
            types@[1]@ == "application/vnd.amazon.eventstream"@,
    {
        broadcast use vstd::string::group_string_axioms;

        let mut types = Vec::new();
        types.push("text/event-stream".to_string());
        types.push("application/vnd.amazon.eventstream".to_string());
        types
    }
}

impl<P: ContentParser> ParserRegistry<P> {
    /// Find a parser that can handle the given content type: the parsers
    /// are asked in the order they were registered, and the first that says
    /// yes is returned.
    pub fn find_parser(&self, content_type: &str) -> (found: Option<&RegisteredParser<P>>)
        ensures
            found matches Some(p) ==> exists|k: int|
                #![trigger picks(self.parsers(), content_type, k)]
                picks(self.parsers(), content_type, k) && p == &self.parsers()[k],
            found is None ==> none_picks(self.parsers(), content_type),
    {
        let ghost ps = self.parsers@;
        let mut i: usize = 0;
        while i < self.parsers.len()
            invariant
                i <= ps.len(),
                ps == self.parsers@,
                forall|j: int| 0 <= j < i ==> answers(#[trigger] ps[j], content_type, false),
            decreases ps.len() - i,
        {
            let parser = &self.parsers[i];
            assert(*parser == ps[i as int]);
            if parser.can_parse(content_type) {
                proof {
                    assert(picks(self.parsers(), content_type, i as int));
                    assert(parser == &self.parsers()[i as int]);
                }
                return Some(parser);
            }
            i = i + 1;
        }
        None
    }
}

impl<P> Default for ParserRegistry<P> {
    fn default() -> (r: Self)
        ensures
            r.parsers() == Seq::<RegisteredParser<P>>::empty(),
    {
        Self::new()
    }
}

/// Builder for creating a parser registry with default parsers
pub struct ParserRegistryBuilder<P> {
    registry: ParserRegistry<P>,
}

impl<P> ParserRegistryBuilder<P> {
    /// The parsers registered so far, in order.
    pub closed spec fn parsers(&self) -> Seq<RegisteredParser<P>> {
        self.registry.parsers()
    }

    /// A builder with no parsers.
    pub fn new() -> (b: Self)
        ensures
            b.parsers() == Seq::<RegisteredParser<P>>::empty(),
    {
        Self { registry: ParserRegistry::new() }
    }

    /// Add default parsers (SSE and Amazon EventStream)
    pub fn with_default_parsers(self) -> (b: Self)
        ensures
            b.parsers() == self.parsers().push(RegisteredParser::Sse(SseParser)).push(
                RegisteredParser::AmazonEventStream(AmazonEventStreamParser),
            ),
    {
        let mut registry = self.registry;
        registry.register_builtin(RegisteredParser::Sse(SseParser));
        registry.register_builtin(RegisteredParser::AmazonEventStream(AmazonEventStreamParser));
        Self { registry }
    }

    /// Add a custom parser
    pub fn with_parser(self, parser: P) -> (b: Self)
        ensures
            b.parsers() == self.parsers().push(RegisteredParser::Custom(parser)),
    {
        let mut registry = self.registry;
        registry.register(parser);
        Self { registry }
    }

    /// Build the registry
    pub fn build(self) -> (r: ParserRegistry<P>)
        ensures
            r.parsers() == self.parsers(),
    {
        self.registry
    }
}

impl<P> Default for ParserRegistryBuilder<P> {
    fn default() -> (b: Self)
        ensures
            b.parsers() == Seq::<RegisteredParser<P>>::empty(),
    {
        Self::new()
    }
}

// ---------------------------------------------------------------------------
// Laws of the registry
// ---------------------------------------------------------------------------

/// Registering a parser keeps the pick of a lookup that an earlier parser
/// answered; when every earlier parser said no, the new parser is picked
/// exactly when it says yes.
pub proof fn registering_keeps_earlier_picks<P: ContentParser>(
    parsers: Seq<RegisteredParser<P>>,
    parser: RegisteredParser<P>,
    content_type: &str,
)
    ensures
        forall|k: int| picks(parsers, content_type, k) ==> picks(parsers.push(parser), content_type, k),
        none_picks(parsers, content_type) && answers(parser, content_type, true) ==> picks(
            parsers.push(parser),
            content_type,
            parsers.len() as int,
        ),
        none_picks(parsers, content_type) && answers(parser, content_type, false) ==> none_picks(
            parsers.push(parser),
            content_type,
        ),
{
    let pushed = parsers.push(parser);
    assert forall|k: int| picks(parsers, content_type, k) implies picks(pushed, content_type, k) by {
        assert forall|j: int| 0 <= j < k implies answers(#[trigger] pushed[j], content_type, false) by {
            assert(pushed[j] == parsers[j]);
        }
        assert(pushed[k] == parsers[k]);
    }
    if none_picks(parsers, content_type) {
        assert forall|j: int| 0 <= j < parsers.len() implies answers(
            #[trigger] pushed[j],
            content_type,
            false,
        ) by {
            assert(pushed[j] == parsers[j]);
        }
        assert(pushed[parsers.len() as int] == parser);
    }
}

/// Each list of a chain starts empty and is the one before it with that
/// step's parsers added at the end: then it holds the parsers of the steps
/// so far, in order.
proof fn lemma_chain_of_additions<P>(
    lists: Seq<Seq<RegisteredParser<P>>>,
    steps: Seq<Seq<RegisteredParser<P>>>,
    i: int,
)
    requires
        lists.len() == steps.len() + 1,
        lists[0] == Seq::<RegisteredParser<P>>::empty(),
        forall|j: int| 0 <= j < steps.len() ==> lists[j + 1] == lists[j] + #[trigger] steps[j],
        0 <= i <= steps.len(),
    ensures
        lists[i] == steps.take(i).flatten(),
    decreases i,
{
    if i == 0 {
        assert(steps.take(0) =~= Seq::<Seq<RegisteredParser<P>>>::empty());
    } else {
        lemma_chain_of_additions(lists, steps, i - 1);
        assert(steps.take(i) =~= steps.take(i - 1).push(steps[i - 1]));
        steps.take(i - 1).lemma_flatten_push(steps[i - 1]);
    }
}

/// Each list of a chain starts empty and is the one before it with that
/// step's custom parser added at the end: then it holds the custom parsers
/// of the steps so far, in order.
proof fn lemma_chain_of_custom_parsers<P>(
    lists: Seq<Seq<RegisteredParser<P>>>,
    custom: Seq<P>,
    i: int,
)
    requires
        lists.len() == custom.len() + 1,
        lists[0] == Seq::<RegisteredParser<P>>::empty(),
        forall|j: int|
            0 <= j < custom.len() ==> lists[j + 1] == lists[j].push(
                RegisteredParser::Custom(#[trigger] custom[j]),
            ),
        0 <= i <= custom.len(),
    ensures
        lists[i] == custom_parsers(custom.take(i)),
    decreases i,
{
    if i == 0 {
        assert(custom_parsers(custom.take(0)) =~= Seq::<RegisteredParser<P>>::empty());
    } else {
        lemma_chain_of_custom_parsers(lists, custom, i - 1);
        assert(custom_parsers(custom.take(i)) =~= custom_parsers(custom.take(i - 1)).push(
            RegisteredParser::Custom(custom[i - 1]),
        ));
    }
}

/// The custom parsers `parsers`, as registered.
pub open spec fn custom_parsers<P>(parsers: Seq<P>) -> Seq<RegisteredParser<P>> {
    parsers.map_values(|p: P| RegisteredParser::Custom(p))
}

/// A registry built from a builder that started empty
/// (`ParserRegistryBuilder::new()`) and went through a chain of steps, each
/// adding its parsers at the end (`with_parser(p)` adds `Custom(p)`,
/// `with_default_parsers()` adds the SSE and then the Amazon EventStream
/// parser), holds exactly the parsers the steps added, in the order they
/// were added: none is added, dropped or reordered.
pub proof fn built_registry_holds_additions_in_order<P>(
    builders: Seq<ParserRegistryBuilder<P>>,
    steps: Seq<Seq<RegisteredParser<P>>>,
    built: ParserRegistry<P>,
)
    requires
        builders.len() == steps.len() + 1,
        builders[0].parsers() == Seq::<RegisteredParser<P>>::empty(),
        forall|i: int|
            0 <= i < steps.len() ==> builders[i + 1].parsers() == builders[i].parsers()
                + #[trigger] steps[i],
        built.parsers() == builders.last().parsers(),
    ensures
        built.parsers() == steps.flatten(),
{
    let lists = Seq::new(builders.len(), |i: int| builders[i].parsers());
    assert forall|j: int| 0 <= j < steps.len() implies lists[j + 1] == lists[j]
        + #[trigger] steps[j] by {}
    lemma_chain_of_additions(lists, steps, steps.len() as int);
    assert(steps.take(steps.len() as int) =~= steps);
}

/// Building a registry from custom parsers added one by one with
/// `with_parser`, starting from `ParserRegistryBuilder::new()`, gives the
/// registry that `ParserRegistry::new()` followed by `register` of the same
/// parsers in the same order gives: those parsers, in that order.
pub proof fn built_registry_equals_registrations<P>(
    builders: Seq<ParserRegistryBuilder<P>>,
    registries: Seq<ParserRegistry<P>>,
    custom: Seq<P>,
    built: ParserRegistry<P>,
)
    requires
        builders.len() == custom.len() + 1,
        registries.len() == custom.len() + 1,
        builders[0].parsers() == Seq::<RegisteredParser<P>>::empty(),
        registries[0].parsers() == Seq::<RegisteredParser<P>>::empty(),
        forall|i: int|
            0 <= i < custom.len() ==> builders[i + 1].parsers() == builders[i].parsers().push(
                RegisteredParser::Custom(#[trigger] custom[i]),
            ),
        forall|i: int|
            0 <= i < custom.len() ==> registries[i + 1].parsers() == registries[i].parsers().push(
                RegisteredParser::Custom(#[trigger] custom[i]),
            ),
        built.parsers() == builders.last().parsers(),
    ensures
        built.parsers() == registries.last().parsers(),
        built.parsers() == custom_parsers(custom),
{
    let from_builders = Seq::new(builders.len(), |i: int| builders[i].parsers());
    let from_registries = Seq::new(registries.len(), |i: int| registries[i].parsers());
    assert forall|j: int| 0 <= j < custom.len() implies from_builders[j + 1]
        == from_builders[j].push(RegisteredParser::Custom(#[trigger] custom[j])) by {}
    assert forall|j: int| 0 <= j < custom.len() implies from_registries[j + 1]
        == from_registries[j].push(RegisteredParser::Custom(#[trigger] custom[j])) by {}
    lemma_chain_of_custom_parsers(from_builders, custom, custom.len() as int);
    lemma_chain_of_custom_parsers(from_registries, custom, custom.len() as int);
    assert(custom.take(custom.len() as int) =~= custom);
}

/// With the default parsers only, `text/event-stream` content goes to the
/// SSE parser; other content that names `amazon.eventstream` or ends with
/// `eventstream` goes to the Amazon EventStream parser; nothing else is
/// handled; and no other pick is possible.
pub proof fn default_parsers_route_content_types<P: ContentParser>(content_type: &str)
    ensures
        ({
            let parsers = seq![
                RegisteredParser::<P>::Sse(SseParser),
                RegisteredParser::<P>::AmazonEventStream(AmazonEventStreamParser),
            ];
            let ct = content_type.spec_bytes();
            &&& forall|k: int|
                #![trigger picks(parsers, content_type, k)]
                picks(parsers, content_type, k) <==> ((k == 0 && sse_accepts(ct)) || (k == 1
                    && !sse_accepts(ct) && amazon_eventstream_accepts(ct)))
            &&& none_picks(parsers, content_type) <==> (!sse_accepts(ct)
                && !amazon_eventstream_accepts(ct))
        }),
{
    let parsers = seq![
        RegisteredParser::<P>::Sse(SseParser),
        RegisteredParser::<P>::AmazonEventStream(AmazonEventStreamParser),
    ];
    assert(parsers[0] == RegisteredParser::<P>::Sse(SseParser));
    assert(parsers[1] == RegisteredParser::<P>::AmazonEventStream(AmazonEventStreamParser));
}

/// The SSE parser handles every content type that begins with
/// `text/event-stream`, whatever follows it (parameters such as
/// `;charset=UTF-8` included), and no content type that does not.
pub proof fn sse_handles_what_begins_with_event_stream(content_type: Seq<u8>, rest: Seq<u8>)
    ensures
        sse_accepts(sse_content_type() + rest),
        sse_accepts(content_type) <==> (sse_content_type().len() <= content_type.len()
            && content_type.subrange(0, sse_content_type().len() as int) == sse_content_type()),
{
    let prefixed = sse_content_type() + rest;
    assert(prefixed.subrange(0, sse_content_type().len() as int) =~= sse_content_type());
}

/// With the default parsers, a content type that begins with
/// `text/event-stream`, whatever follows it, goes to the SSE parser.
pub proof fn default_parsers_send_event_stream_to_sse<P: ContentParser>(
    content_type: &str,
    rest: Seq<u8>,
)
    requires
        content_type.spec_bytes() == sse_content_type() + rest,
    ensures
        picks(
            seq![
                RegisteredParser::<P>::Sse(SseParser),
                RegisteredParser::<P>::AmazonEventStream(AmazonEventStreamParser),
            ],
            content_type,
            0,
        ),
{
    sse_handles_what_begins_with_event_stream(content_type.spec_bytes(), rest);
    let parsers = seq![
        RegisteredParser::<P>::Sse(SseParser),
        RegisteredParser::<P>::AmazonEventStream(AmazonEventStreamParser),
    ];
    assert(parsers[0] == RegisteredParser::<P>::Sse(SseParser));
}

/// Built-in parsers answer one way only, so when they alone are asked the
/// pick is unique.
pub proof fn built_in_picks_are_unique<P: ContentParser>(
    parsers: Seq<RegisteredParser<P>>,
    content_type: &str,
    k1: int,
    k2: int,
)
    requires
        forall|j: int| 0 <= j < parsers.len() ==> !((#[trigger] parsers[j]) is Custom),
        picks(parsers, content_type, k1),
        picks(parsers, content_type, k2),
    ensures
        k1 == k2,
{
    if k1 < k2 {
        assert(answers(parsers[k1], content_type, false));
        assert(!(parsers[k1] is Custom));
    } else if k2 < k1 {
        assert(answers(parsers[k2], content_type, false));
        assert(!(parsers[k2] is Custom));
    }
}

} // verus!
