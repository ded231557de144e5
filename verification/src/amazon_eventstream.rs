//! The Amazon EventStream binary framing.
//!
//! A message is `[total_length][headers_length][prelude_crc][headers][payload][message_crc]`,
//! the three prelude fields and the trailing CRC being big-endian `u32`s.
//! A header is `[name_length: u8][name][value_type: u8][value_length: u16][value]`.
//! The CRCs are read and not checked.
//!
//! A payload is commonly a JSON document whose `bytes` member holds the
//! base64 encoding of another JSON document, as Amazon Bedrock streams do;
//! that inner document's `type` member (`content_block_delta`,
//! `message_stop`, ...) becomes the event type and the inner document the
//! data.  The headers, `:event-type` among them, are read but do not take
//! part in the event.
use crate::bindings::{
    base64_decode, base64_standard_decoding, json_string_field, json_string_member,
    lossy_utf8_string, strict_utf8_string, utf8_lossy,
};
use crate::message::{message_views, MessageEvent, MessageEventView};
use vstd::prelude::*;
use vstd::slice::*;
use vstd::pervasive::VecAdditionalExecFns;
use vstd::utf8::*;

verus! {

/// The value of a message header, by its wire type.
#[derive(Debug, Clone)]
pub enum HeaderValue {
    Bool(bool),
    Byte(i8),
    Short(i16),
    Int(i32),
    Long(i64),
    ByteArray(Vec<u8>),
    String(String),
    Timestamp(i64),
    Uuid(Vec<u8>),
}

/// The mathematical value of a [`HeaderValue`].
pub enum HeaderValueView {
    Bool(bool),
    Byte(int),
    Short(int),
    Int(int),
    Long(int),
    ByteArray(Seq<u8>),
    String(Seq<char>),
    Timestamp(int),
    Uuid(Seq<u8>),
}

impl View for HeaderValue {
    type V = HeaderValueView;

    open spec fn view(&self) -> HeaderValueView {
        match self {
            HeaderValue::Bool(b) => HeaderValueView::Bool(*b),
            HeaderValue::Byte(b) => HeaderValueView::Byte(*b as int),
            HeaderValue::Short(v) => HeaderValueView::Short(*v as int),
            HeaderValue::Int(v) => HeaderValueView::Int(*v as int),
            HeaderValue::Long(v) => HeaderValueView::Long(*v as int),
            HeaderValue::ByteArray(v) => HeaderValueView::ByteArray(v@),
            HeaderValue::String(s) => HeaderValueView::String(s@),
            HeaderValue::Timestamp(v) => HeaderValueView::Timestamp(*v as int),
            HeaderValue::Uuid(v) => HeaderValueView::Uuid(v@),
        }
    }
}

/// Why a message or a header could not be read from a buffer, with the
/// offset in the buffer where reading stopped.
#[derive(Debug, Clone, Copy, PartialEq, Eq, Structural)]
pub enum FrameError {
    /// The buffer ends inside the field that starts at the offset.
    UnexpectedEnd(usize),
    /// `total_length` is smaller than the prelude, the headers and the CRC
    /// together; the offset is that of the payload.
    InvalidLength(usize),
}

/// The text that `bytes` encode: their UTF-8 decoding when they are valid
/// UTF-8, otherwise their lossy decoding.
pub open spec fn text_of(bytes: Seq<u8>) -> Seq<char> {
    if valid_utf8(bytes) {
        decode_utf8(bytes)
    } else {
        utf8_lossy(bytes)
    }
}

/// Reads `bytes` as text, lossily where they are not valid UTF-8.
fn read_text(bytes: &[u8]) -> (text: String)
    ensures
        text@ == text_of(bytes@),
{
    lossy_utf8_string(bytes)
}

// ---------------------------------------------------------------------------
// Big-endian integers
// ---------------------------------------------------------------------------

/// The unsigned big-endian number that `bytes` encode.
pub open spec fn be_uint(bytes: Seq<u8>) -> nat
    decreases bytes.len(),
{
    if bytes.len() == 0 {
        0
    } else {
        be_uint(bytes.drop_last()) * 256 + bytes.last() as nat
    }
}

/// `256` to the power `n`.
pub open spec fn pow256(n: nat) -> nat
    decreases n,
{
    if n == 0 {
        1
    } else {
        256 * pow256((n - 1) as nat)
    }
}

/// The two's complement reading of `value`, an unsigned number below `modulus`.
pub open spec fn signed_of(value: int, modulus: int) -> int {
    if value * 2 >= modulus {
        value - modulus
    } else {
        value
    }
}

proof fn lemma_pow256_monotone(a: nat, b: nat)
    requires
        a <= b,
    ensures
        pow256(a) <= pow256(b),
    decreases b,
{
    if a < b {
        lemma_pow256_monotone(a, (b - 1) as nat);
    }
}

/// A big-endian number is below `256` to the power of its length.
proof fn lemma_be_uint_bound(bytes: Seq<u8>)
    ensures
        be_uint(bytes) < pow256(bytes.len()),
    decreases bytes.len(),
{
    if bytes.len() > 0 {
        lemma_be_uint_bound(bytes.drop_last());
    }
}

proof fn lemma_pow256_values()
    ensures
        pow256(1) == 0x100,
        pow256(2) == 0x1_0000,
        pow256(4) == 0x1_0000_0000,
        pow256(8) == 0x1_0000_0000_0000_0000,
{
    reveal_with_fuel(pow256, 9);
}

/// Reads the big-endian number in `data`, at most eight bytes.
fn be_unsigned(data: &[u8]) -> (value: u64)
    requires
        data@.len() <= 8,
    ensures
        value == be_uint(data@),
{
    let mut value: u64 = 0;
    let mut i: usize = 0;
    proof {
        lemma_pow256_values();
        assert(data@.take(0) =~= Seq::<u8>::empty());
    }
    while i < data.len()
        invariant
            i <= data@.len() <= 8,
            value == be_uint(data@.take(i as int)),
            pow256(8) == 0x1_0000_0000_0000_0000,
        decreases data@.len() - i,
    {
        proof {
            lemma_be_uint_bound(data@.take(i as int));
            lemma_pow256_monotone(i as nat, 7);
            assert(data@.take(i + 1).drop_last() =~= data@.take(i as int));
        }
        value = value * 256 + data[i] as u64;
        i = i + 1;
    }
    proof {
        assert(data@.take(i as int) =~= data@);
    }
    value
}

/// Reads a big-endian `i16` from exactly two bytes.
fn be_signed16(data: &[u8]) -> (value: i16)
    requires
        data@.len() == 2,
    ensures
        value as int == signed_of(be_uint(data@) as int, 0x1_0000),
{
    let u = be_unsigned(data);
    proof {
        lemma_be_uint_bound(data@);
        lemma_pow256_values();
    }
    if u < 0x8000 {
        u as i16
    } else {
        ((u as i64) - 0x1_0000) as i16
    }
}

/// Reads a big-endian `i32` from exactly four bytes.
fn be_signed32(data: &[u8]) -> (value: i32)
    requires
        data@.len() == 4,
    ensures
        value as int == signed_of(be_uint(data@) as int, 0x1_0000_0000),
{
    let u = be_unsigned(data);
    proof {
        lemma_be_uint_bound(data@);
        lemma_pow256_values();
    }
    if u < 0x8000_0000 {
        u as i32
    } else {
        ((u as i64) - 0x1_0000_0000) as i32
    }
}

/// Reads a big-endian `i64` from exactly eight bytes.
fn be_signed64(data: &[u8]) -> (value: i64)
    requires
        data@.len() == 8,
    ensures
        value as int == signed_of(be_uint(data@) as int, 0x1_0000_0000_0000_0000),
{
    let u = be_unsigned(data);
    if u < 0x8000_0000_0000_0000 {
        u as i64
    } else {
        ((u - 0x8000_0000_0000_0000) as i64) + i64::MIN
    }
}

/// Reads a byte as an `i8`.
fn byte_as_signed(b: u8) -> (value: i8)
    ensures
        value as int == signed_of(b as int, 0x100),
{
    if b < 0x80 {
        b as i8
    } else {
        ((b - 0x80) as i8) + i8::MIN
    }
}

/// Reads the big-endian `u32` at `at`.
fn be_u32_at(input: &[u8], at: usize) -> (value: u32)
    requires
        at + 4 <= input@.len(),
    ensures
        value == be_uint(input@.subrange(at as int, at + 4)),
{
    let _len = input.len();
    let v = be_unsigned(slice_subrange(input, at, at + 4));
    proof {
        lemma_be_uint_bound(input@.subrange(at as int, at + 4));
        lemma_pow256_values();
    }
    v as u32
}

// ---------------------------------------------------------------------------
// Headers
// ---------------------------------------------------------------------------

/// The header value of wire type `value_type` carried by `data`.  A numeric
/// value whose data has the wrong length reads as zero; an unknown type
/// keeps the bytes.
pub open spec fn decode_header_value(value_type: u8, data: Seq<u8>) -> HeaderValueView {
    if value_type == 0 {
        HeaderValueView::Bool(data.len() >= 1 && data[0] != 0)
    } else if value_type == 1 {
        HeaderValueView::Byte(
            if data.len() >= 1 {
                signed_of(data[0] as int, 0x100)
            } else {
                0
            },
        )
    } else if value_type == 2 {
        HeaderValueView::Short(
            if data.len() == 2 {
                signed_of(be_uint(data) as int, 0x1_0000)
            } else {
                0
            },
        )
    } else if value_type == 3 {
        HeaderValueView::Int(
            if data.len() == 4 {
                signed_of(be_uint(data) as int, 0x1_0000_0000)
            } else {
                0
            },
        )
    } else if value_type == 4 {
        HeaderValueView::Long(
            if data.len() == 8 {
                signed_of(be_uint(data) as int, 0x1_0000_0000_0000_0000)
            } else {
                0
            },
        )
    } else if value_type == 5 {
        HeaderValueView::ByteArray(data)
    } else if value_type == 6 {
        HeaderValueView::String(text_of(data))
    } else if value_type == 7 {
        HeaderValueView::Timestamp(
            if data.len() == 8 {
                signed_of(be_uint(data) as int, 0x1_0000_0000_0000_0000)
            } else {
                0
            },
        )
    } else if value_type == 8 {
        HeaderValueView::Uuid(data)
    } else {
        HeaderValueView::ByteArray(data)
    }
}

/// The length of the name of the header at the start of `s`.
pub open spec fn header_name_len(s: Seq<u8>) -> int {
    s[0] as int
}

/// The length of the value of the header at the start of `s`.
pub open spec fn header_value_len(s: Seq<u8>) -> int {
    be_uint(s.subrange(header_name_len(s) + 2, header_name_len(s) + 4)) as int
}

/// The header at the start of `s`: the bytes it takes, its name and its
/// value; or, when `s` ends inside it, the offset of the field it ends in.
pub open spec fn spec_parse_header(s: Seq<u8>) -> Result<(int, Seq<char>, HeaderValueView), FrameError> {
    let nl = header_name_len(s);
    let vl = header_value_len(s);
    if s.len() < 1 {
        Err(FrameError::UnexpectedEnd(0))
    } else if s.len() < 1 + nl {
        Err(FrameError::UnexpectedEnd(1))
    } else if s.len() < 2 + nl {
        Err(FrameError::UnexpectedEnd((1 + nl) as usize))
    } else if s.len() < 4 + nl {
        Err(FrameError::UnexpectedEnd((2 + nl) as usize))
    } else if s.len() < 4 + nl + vl {
        Err(FrameError::UnexpectedEnd((4 + nl) as usize))
    } else {
        Ok(
            (
                4 + nl + vl,
                text_of(s.subrange(1, 1 + nl)),
                decode_header_value(s[1 + nl], s.subrange(4 + nl, 4 + nl + vl)),
            ),
        )
    }
}

/// The headers read one after another from the start of `s`, up to the
/// first one that `s` does not hold whole.
pub open spec fn spec_parse_headers(s: Seq<u8>) -> Seq<(Seq<char>, HeaderValueView)>
    decreases s.len(),
{
    match spec_parse_header(s) {
        Ok((n, name, value)) => if 0 < n <= s.len() {
            seq![(name, value)] + spec_parse_headers(s.skip(n))
        } else {
            seq![]
        },
        Err(_) => seq![],
    }
}

/// The views of a list of headers.
pub open spec fn header_views(headers: Seq<(String, HeaderValue)>) -> Seq<(Seq<char>, HeaderValueView)> {
    headers.map_values(|h: (String, HeaderValue)| (h.0@, h.1@))
}

/// Builds the header value of wire type `value_type` from `data`.
fn header_value_from(value_type: u8, data: &[u8]) -> (value: HeaderValue)
    ensures
        value@ == decode_header_value(value_type, data@),
{
    if value_type == 0 {
        if data.len() >= 1 {
            HeaderValue::Bool(data[0] != 0)
        } else {
            HeaderValue::Bool(false)
        }
    } else if value_type == 1 {
        if data.len() >= 1 {
            HeaderValue::Byte(byte_as_signed(data[0]))
        } else {
            HeaderValue::Byte(0)
        }
    } else if value_type == 2 {
        if data.len() == 2 {
            HeaderValue::Short(be_signed16(data))
        } else {
            HeaderValue::Short(0)
        }
    } else if value_type == 3 {
        if data.len() == 4 {
            HeaderValue::Int(be_signed32(data))
        } else {
            HeaderValue::Int(0)
        }
    } else if value_type == 4 {
        if data.len() == 8 {
            HeaderValue::Long(be_signed64(data))
        } else {
            HeaderValue::Long(0)
        }
    } else if value_type == 5 {
        HeaderValue::ByteArray(slice_to_vec(data))
    } else if value_type == 6 {
        HeaderValue::String(read_text(data))
    } else if value_type == 7 {
        if data.len() == 8 {
            HeaderValue::Timestamp(be_signed64(data))
        } else {
            HeaderValue::Timestamp(0)
        }
    } else if value_type == 8 {
        HeaderValue::Uuid(slice_to_vec(data))
    } else {
        HeaderValue::ByteArray(slice_to_vec(data))
    }
}

/// Reads one header from the start of `input`, returning the rest of the
/// input with the header's name and value.
pub fn parse_header(input: &[u8]) -> (r: Result<(&[u8], (String, HeaderValue)), FrameError>)
    ensures
        match spec_parse_header(input@) {
            Ok((n, name, value)) => r matches Ok((rest, h)) && rest@ == input@.skip(n) && h.0@
                == name && h.1@ == value,
            Err(e) => r == Err::<(&[u8], (String, HeaderValue)), FrameError>(e),
        },
{
    let len = input.len();
    if len < 1 {
        return Err(FrameError::UnexpectedEnd(0));
    }
    let name_len = input[0] as usize;
    if len - 1 < name_len {
        return Err(FrameError::UnexpectedEnd(1));
    }
    if len - 1 - name_len < 1 {
        return Err(FrameError::UnexpectedEnd(1 + name_len));
    }
    let value_type = input[1 + name_len];
    if len - 2 - name_len < 2 {
        return Err(FrameError::UnexpectedEnd(2 + name_len));
    }
    let value_len = (input[2 + name_len] as usize) * 256 + input[3 + name_len] as usize;
    proof {
        let s = input@;
        let len_bytes = s.subrange(name_len + 2, name_len + 4);
        reveal_with_fuel(be_uint, 3);
        assert(len_bytes.drop_last() =~= seq![s[name_len + 2]]);
        assert(seq![s[name_len + 2]].drop_last() =~= Seq::<u8>::empty());
        assert(be_uint(len_bytes) == s[name_len + 2] * 256 + s[name_len + 3]);
    }
    if len - (4 + name_len) < value_len {
        return Err(FrameError::UnexpectedEnd(4 + name_len));
    }
    let name = read_text(slice_subrange(input, 1, 1 + name_len));
    let data = slice_subrange(input, 4 + name_len, 4 + name_len + value_len);
    let value = header_value_from(value_type, data);
    let rest = slice_subrange(input, 4 + name_len + value_len, len);
    Ok((rest, (name, value)))
}

/// The bytes that the headers read from the start of `s` take.
pub open spec fn spec_headers_consumed(s: Seq<u8>) -> int
    decreases s.len(),
{
    match spec_parse_header(s) {
        Ok((n, _, _)) => if 0 < n <= s.len() {
            n + spec_headers_consumed(s.skip(n))
        } else {
            0
        },
        Err(_) => 0,
    }
}

/// No name occurs twice in `entries`.
pub open spec fn names_unique(entries: Seq<(Seq<char>, HeaderValueView)>) -> bool {
    forall|i: int, j: int| 0 <= i < j < entries.len() ==> entries[i].0 != entries[j].0
}

/// The map that `entries` make when each is inserted in turn: a later entry
/// replaces an earlier one of the same name.
pub open spec fn headers_map(entries: Seq<(Seq<char>, HeaderValueView)>) -> Map<
    Seq<char>,
    HeaderValueView,
>
    decreases entries.len(),
{
    if entries.len() == 0 {
        Map::empty()
    } else {
        headers_map(entries.drop_last()).insert(entries.last().0, entries.last().1)
    }
}

proof fn lemma_headers_map_dom(entries: Seq<(Seq<char>, HeaderValueView)>, name: Seq<char>)
    ensures
        headers_map(entries).contains_key(name) <==> exists|i: int|
            0 <= i < entries.len() && (#[trigger] entries[i]).0 == name,
    decreases entries.len(),
{
    if entries.len() > 0 {
        let front = entries.drop_last();
        lemma_headers_map_dom(front, name);
        if headers_map(front).contains_key(name) {
            let i = choose|i: int| 0 <= i < front.len() && (#[trigger] front[i]).0 == name;
            assert(entries[i] == front[i]);
        }
        if exists|i: int| 0 <= i < entries.len() && (#[trigger] entries[i]).0 == name {
            let i = choose|i: int| 0 <= i < entries.len() && (#[trigger] entries[i]).0 == name;
            if i < entries.len() - 1 {
                assert(front[i] == entries[i]);
            }
        }
    }
}

proof fn lemma_headers_map_value(entries: Seq<(Seq<char>, HeaderValueView)>, i: int)
    requires
        names_unique(entries),
        0 <= i < entries.len(),
    ensures
        headers_map(entries).contains_key(entries[i].0),
        headers_map(entries)[entries[i].0] == entries[i].1,
    decreases entries.len(),
{
    if i < entries.len() - 1 {
        let front = entries.drop_last();
        assert(front[i] == entries[i]);
        lemma_headers_map_value(front, i);
    }
}

proof fn lemma_headers_map_len(entries: Seq<(Seq<char>, HeaderValueView)>)
    requires
        names_unique(entries),
    ensures
        headers_map(entries).dom().finite(),
        headers_map(entries).len() == entries.len(),
    decreases entries.len(),
{
    if entries.len() > 0 {
        let front = entries.drop_last();
        lemma_headers_map_len(front);
        lemma_headers_map_dom(front, entries.last().0);
        if headers_map(front).contains_key(entries.last().0) {
            let i = choose|i: int| 0 <= i < front.len() && (#[trigger] front[i]).0 == entries.last().0;
            assert(entries[i] == front[i]);
        }
    }
}

/// Replacing the value of one entry of a map without repeated names
/// replaces the value at that name.
proof fn lemma_headers_map_update(
    entries: Seq<(Seq<char>, HeaderValueView)>,
    i: int,
    value: HeaderValueView,
)
    requires
        names_unique(entries),
        0 <= i < entries.len(),
    ensures
        names_unique(entries.update(i, (entries[i].0, value))),
        headers_map(entries.update(i, (entries[i].0, value))) == headers_map(entries).insert(
            entries[i].0,
            value,
        ),
{
    let name = entries[i].0;
    let updated = entries.update(i, (name, value));
    assert(names_unique(updated)) by {
        assert forall|a: int, b: int| 0 <= a < b < updated.len() implies updated[a].0
            != updated[b].0 by {
            assert(updated[a].0 == entries[a].0);
            assert(updated[b].0 == entries[b].0);
        }
    }
    let m1 = headers_map(updated);
    let m2 = headers_map(entries).insert(name, value);
    assert forall|k: Seq<char>| m1.contains_key(k) <==> m2.contains_key(k) by {
        lemma_headers_map_dom(updated, k);
        lemma_headers_map_dom(entries, k);
        if exists|j: int| 0 <= j < entries.len() && (#[trigger] entries[j]).0 == k {
            let j = choose|j: int| 0 <= j < entries.len() && (#[trigger] entries[j]).0 == k;
            assert(updated[j].0 == k);
        }
        if exists|j: int| 0 <= j < updated.len() && (#[trigger] updated[j]).0 == k {
            let j = choose|j: int| 0 <= j < updated.len() && (#[trigger] updated[j]).0 == k;
            assert(entries[j].0 == k);
        }
    }
    assert forall|k: Seq<char>| m1.contains_key(k) implies m1[k] == m2[k] by {
        lemma_headers_map_dom(updated, k);
        let j = choose|j: int| 0 <= j < updated.len() && (#[trigger] updated[j]).0 == k;
        lemma_headers_map_value(updated, j);
        if j != i {
            lemma_headers_map_value(entries, j);
        }
    }
    assert(m1 =~= m2);
}

/// The headers of a message, one entry per name: a later header of a name
/// replaces an earlier one.
pub struct Headers {
    entries: Vec<(String, HeaderValue)>,
}

impl Headers {
    /// No name occurs twice.
    #[verifier::type_invariant]
    spec fn one_entry_per_name(self) -> bool {
        names_unique(header_views(self.entries@))
    }
}

impl View for Headers {
    type V = Map<Seq<char>, HeaderValueView>;

    closed spec fn view(&self) -> Map<Seq<char>, HeaderValueView> {
        headers_map(header_views(self.entries@))
    }
}

impl Headers {
    /// No headers.
    pub fn new() -> (headers: Self)
        ensures
            headers@ == Map::<Seq<char>, HeaderValueView>::empty(),
    {
        let headers = Headers { entries: Vec::new() };
        proof {
            assert(header_views(headers.entries@) =~= Seq::empty());
        }
        headers
    }

    /// Sets the value of `name`, replacing any earlier one.
    pub fn insert(&mut self, name: String, value: HeaderValue)
        ensures
            final(self)@ == old(self)@.insert(name@, value@),
    {
        proof {
            use_type_invariant(&*self);
        }
        let mut entries: Vec<(String, HeaderValue)> = Vec::new();
        std::mem::swap(&mut entries, &mut self.entries);
        let ghost views = header_views(entries@);
        assert(headers_map(views) == old(self)@);
        let mut i: usize = 0;
        while i < entries.len()
            invariant
                i <= entries@.len(),
                views == header_views(entries@),
                names_unique(views),
                headers_map(views) == old(self)@,
                forall|j: int| 0 <= j < i ==> views[j].0 != name@,
            decreases entries@.len() - i,
        {
            if entries[i].0 == name {
                proof {
                    lemma_headers_map_update(views, i as int, value@);
                    assert(header_views(entries@.update(i as int, (name, value))) =~= views.update(
                        i as int,
                        (name@, value@),
                    ));
                }
                entries.set(i, (name, value));
                self.entries = entries;
                return ;
            }
            i = i + 1;
        }
        proof {
            lemma_headers_map_dom(views, name@);
            assert(header_views(entries@.push((name, value))) =~= views.push((name@, value@)));
            assert(views.push((name@, value@)).drop_last() =~= views);
        }
        entries.push((name, value));
        self.entries = entries;
    }

    /// The value of `name`, if there is one.
    pub fn get(&self, name: &str) -> (value: Option<&HeaderValue>)
        ensures
            match value {
                Some(v) => self@.contains_key(name@) && v@ == self@[name@],
                None => !self@.contains_key(name@),
            },
    {
        proof {
            use_type_invariant(self);
        }
        broadcast use vstd::string::group_string_axioms;

        let key = name.to_string();
        let ghost views = header_views(self.entries@);
        let mut i: usize = 0;
        while i < self.entries.len()
            invariant
                i <= self.entries@.len(),
                views == header_views(self.entries@),
                names_unique(views),
                key@ == name@,
                forall|j: int| 0 <= j < i ==> views[j].0 != name@,
            decreases self.entries@.len() - i,
        {
            if self.entries[i].0 == key {
                proof {
                    lemma_headers_map_value(views, i as int);
                }
                return Some(&self.entries[i].1);
            }
            i = i + 1;
        }
        proof {
            lemma_headers_map_dom(views, name@);
        }
        None
    }

    /// The number of names.
    pub fn len(&self) -> (n: usize)
        ensures
            n == self@.len(),
    {
        proof {
            use_type_invariant(self);
            lemma_headers_map_len(header_views(self.entries@));
        }
        self.entries.len()
    }
}

/// Reads headers from the start of `input` until one is not held whole;
/// returns the rest of the input and the headers, a later header of a name
/// replacing an earlier one.
pub fn parse_headers(input: &[u8]) -> (r: (&[u8], Headers))
    ensures
        r.0@ == input@.skip(spec_headers_consumed(input@)),
        r.1@ == headers_map(spec_parse_headers(input@)),
{
    let mut headers = Headers::new();
    let mut rest = input;
    let ghost mut read: Seq<(Seq<char>, HeaderValueView)> = Seq::empty();
    let ghost mut consumed: int = 0;
    proof {
        assert(input@.skip(0) =~= input@);
    }
    loop
        invariant
            read + spec_parse_headers(rest@) == spec_parse_headers(input@),
            consumed + spec_headers_consumed(rest@) == spec_headers_consumed(input@),
            0 <= consumed <= input@.len(),
            rest@ == input@.skip(consumed),
            headers@ == headers_map(read),
        ensures
            headers@ == headers_map(spec_parse_headers(input@)),
            rest@ == input@.skip(spec_headers_consumed(input@)),
        decreases rest@.len(),
    {
        let ghost before = rest@;
        match parse_header(rest) {
            Ok((remaining, header)) => {
                let (name, value) = header;
                proof {
                    let (n, hname, hvalue) = spec_parse_header(before).unwrap();
                    assert(spec_parse_headers(before) == seq![(hname, hvalue)] + spec_parse_headers(
                        before.skip(n),
                    ));
                    assert(read.push((hname, hvalue)) + spec_parse_headers(remaining@) =~= read + (
                    seq![(hname, hvalue)] + spec_parse_headers(remaining@)));
                    assert(read.push((hname, hvalue)).drop_last() =~= read);
                    assert(remaining@ =~= input@.skip(consumed + n));
                    read = read.push((hname, hvalue));
                    consumed = consumed + n;
                }
                headers.insert(name, value);
                rest = remaining;
            },
            Err(_) => {
                proof {
                    assert(spec_parse_headers(before) =~= Seq::empty());
                    assert(read + Seq::empty() =~= read);
                }
                break ;
            },
        }
    }
    (rest, headers)
}

// ---------------------------------------------------------------------------
// Messages
// ---------------------------------------------------------------------------

/// The text carried by a payload: when the payload, read as UTF-8, is a
/// JSON document whose `bytes` member is a string that decodes from base64
/// to valid UTF-8, that decoded text; otherwise none.
pub open spec fn eventstream_payload_text(payload: Seq<u8>) -> Option<Seq<char>> {
    match json_string_member(text_of(payload), "bytes"@) {
        Some(encoded) => match base64_standard_decoding(encoded) {
            Some(decoded) => if valid_utf8(decoded) {
                Some(decode_utf8(decoded))
            } else {
                None
            },
            None => None,
        },
        None => None,
    }
}

/// The event built from a payload that reads as the text `raw`, the text
/// `text` it carries, if any, and the event type `event_type` named in that
/// text, if any: the event type, or `message` when there is none; the
/// carried text as data, or `raw` when there is none; no id and no
/// reconnection time.
pub open spec fn payload_event(
    raw: Seq<char>,
    text: Option<Seq<char>>,
    event_type: Option<Seq<char>>,
) -> MessageEventView {
    MessageEventView {
        event: match event_type {
            Some(t) => t,
            None => "message"@,
        },
        data: match text {
            Some(t) => t,
            None => raw,
        },
        id: Seq::empty(),
        retry: None,
    }
}

/// The event of the message whose payload is `payload`: its data is the
/// text the payload carries (see [`eventstream_payload_text`]), or else the
/// payload read as UTF-8; its event type is the `type` member of the carried
/// text read as a JSON document, when that member is a string, or else
/// `message`.
pub open spec fn eventstream_payload_event(payload: Seq<u8>) -> MessageEventView {
    let text = eventstream_payload_text(payload);
    payload_event(
        text_of(payload),
        text,
        match text {
            Some(t) => json_string_member(t, "type"@),
            None => None,
        },
    )
}

/// The view of an optional string.
pub open spec fn optional_text(s: Option<String>) -> Option<Seq<char>> {
    match s {
        Some(t) => Some(t@),
        None => None,
    }
}

/// The `total_length` field of the message at the start of `s`.
pub open spec fn frame_total_length(s: Seq<u8>) -> int {
    be_uint(s.subrange(0, 4)) as int
}

/// The `headers_length` field of the message at the start of `s`.
pub open spec fn frame_headers_length(s: Seq<u8>) -> int {
    be_uint(s.subrange(4, 8)) as int
}

/// The message at the start of `s`: the bytes it takes and the event it
/// carries, or why it cannot be read.
pub open spec fn spec_parse_message(s: Seq<u8>) -> Result<(int, MessageEventView), FrameError> {
    let total = frame_total_length(s);
    let hl = frame_headers_length(s);
    if s.len() < 4 {
        Err(FrameError::UnexpectedEnd(0))
    } else if s.len() < 8 {
        Err(FrameError::UnexpectedEnd(4))
    } else if s.len() < 12 {
        Err(FrameError::UnexpectedEnd(8))
    } else if s.len() < 12 + hl {
        Err(FrameError::UnexpectedEnd(12))
    } else if total < 16 + hl {
        Err(FrameError::InvalidLength((12 + hl) as usize))
    } else if s.len() < total - 4 {
        Err(FrameError::UnexpectedEnd((12 + hl) as usize))
    } else if s.len() < total {
        Err(FrameError::UnexpectedEnd((total - 4) as usize))
    } else {
        Ok((total, eventstream_payload_event(s.subrange(12 + hl, total - 4))))
    }
}

/// The messages read one after another from the start of `s`, up to the
/// first one that cannot be read.
pub open spec fn spec_parse_messages(s: Seq<u8>) -> Seq<MessageEventView>
    decreases s.len(),
{
    if s.len() == 0 {
        seq![]
    } else {
        match spec_parse_message(s) {
            Ok((n, event)) => if 0 < n <= s.len() {
                seq![event] + spec_parse_messages(s.skip(n))
            } else {
                seq![event]
            },
            Err(_) => seq![],
        }
    }
}

/// The event of a message whose payload reads as the text `raw`, given the
/// text `text` that the payload carries and the event type `event_type`
/// named in it, where there are such.
pub fn event_from_payload(raw: String, text: Option<String>, event_type: Option<String>) -> (event:
    MessageEvent)
    ensures
        event@ == payload_event(raw@, optional_text(text), optional_text(event_type)),
{
    broadcast use vstd::string::group_string_axioms;

    let event = match event_type {
        Some(t) => t,
        None => "message".to_string(),
    };
    let data = match text {
        Some(t) => t,
        None => raw,
    };
    MessageEvent { event, data, id: String::new(), retry: None }
}

/// Builds the event carried by a message payload.  The headers do not take
/// part: the event type is read from the payload.
fn build_event_from_eventstream(_headers: Headers, payload: &[u8]) -> (event: MessageEvent)
    ensures
        event@ == eventstream_payload_event(payload@),
{
    let payload_str = read_text(payload);
    let text = match json_string_field(payload_str.as_str(), "bytes") {
        Some(encoded) => match base64_decode(encoded.as_str()) {
            Some(bytes) => strict_utf8_string(bytes.as_slice()),
            None => None,
        },
        None => None,
    };
    let event_type = match &text {
        Some(t) => json_string_field(t.as_str(), "type"),
        None => None,
    };
    event_from_payload(payload_str, text, event_type)
}

/// Reads one message from the start of `input`, returning the rest of the
/// input with the event it carries.
pub fn parse_eventstream_message(input: &[u8]) -> (r: Result<(&[u8], MessageEvent), FrameError>)
    ensures
        match spec_parse_message(input@) {
            Ok((n, event)) => r matches Ok((rest, e)) && rest@ == input@.skip(n) && e@ == event,
            Err(k) => r == Err::<(&[u8], MessageEvent), FrameError>(k),
        },
{
    let len = input.len();
    if len < 4 {
        return Err(FrameError::UnexpectedEnd(0));
    }
    let total_length = be_u32_at(input, 0);
    if len < 8 {
        return Err(FrameError::UnexpectedEnd(4));
    }
    let headers_length = be_u32_at(input, 4);
    if len < 12 {
        return Err(FrameError::UnexpectedEnd(8));
    }
    let _prelude_crc = be_u32_at(input, 8);
    let hl = headers_length as usize;
    if len - 12 < hl {
        return Err(FrameError::UnexpectedEnd(12));
    }
    let (_, headers) = parse_headers(slice_subrange(input, 12, 12 + hl));
    if (total_length as u64) < 16 + (headers_length as u64) {
        return Err(FrameError::InvalidLength(12 + hl));
    }
    let payload_length = (total_length - 16 - headers_length) as usize;
    if ((len - 12 - hl) as u64) < (payload_length as u64) {
        return Err(FrameError::UnexpectedEnd(12 + hl));
    }
    if ((len - 12 - hl - payload_length) as u64) < 4 {
        return Err(FrameError::UnexpectedEnd(12 + hl + payload_length));
    }
    let payload = slice_subrange(input, 12 + hl, 12 + hl + payload_length);
    let _message_crc = be_u32_at(input, 12 + hl + payload_length);
    let rest = slice_subrange(input, 12 + hl + payload_length + 4, len);
    let event = build_event_from_eventstream(headers, payload);
    Ok((rest, event))
}

/// Reads messages one after another from `input` until one cannot be read,
/// or a read makes no progress.
pub fn parse_eventstream_messages(input: &[u8]) -> (events: Vec<MessageEvent>)
    ensures
        message_views(events@) == spec_parse_messages(input@),
{
    let mut events: Vec<MessageEvent> = Vec::new();
    let mut rest = input;
    let mut previous_len = input.len();
    while rest.len() > 0
        invariant_except_break
            previous_len == rest@.len(),
            message_views(events@) + spec_parse_messages(rest@) == spec_parse_messages(input@),
        ensures
            message_views(events@) == spec_parse_messages(input@),
        decreases rest@.len(),
    {
        let ghost before = rest@;
        match parse_eventstream_message(rest) {
            Ok((remaining, event)) => {
                let ghost ev = event@;
                proof {
                    assert(message_views(events@.push(event)) =~= message_views(events@).push(ev));
                }
                events.push(event);
                rest = remaining;
                if rest.len() >= previous_len {
                    proof {
                        assert(spec_parse_messages(before) == seq![ev]);
                        assert(message_views(events@) =~= message_views(events@).drop_last() + seq![ev]);
                    }
                    break ;
                }
                proof {
                    assert(message_views(events@) + spec_parse_messages(rest@) =~= message_views(events@).drop_last() + (seq![ev] + spec_parse_messages(rest@)));
                }
                previous_len = rest.len();
            },
            Err(_) => {
                proof {
                    assert(message_views(events@) + Seq::empty() =~= message_views(events@));
                }
                break ;
            },
        }
    }
    proof {
        if rest@.len() == 0 {
            assert(message_views(events@) + Seq::empty() =~= message_views(events@));
        }
    }
    events
}

// ---------------------------------------------------------------------------
// Laws of the framing
// ---------------------------------------------------------------------------

/// The four big-endian bytes of `n`.
pub open spec fn be_bytes32(n: nat) -> Seq<u8> {
    seq![
        (n / 0x100_0000) as u8,
        ((n % 0x100_0000) / 0x1_0000) as u8,
        ((n % 0x1_0000) / 0x100) as u8,
        (n % 0x100) as u8,
    ]
}

/// A message laid out as the format documents it:
/// `[total_length][headers_length][prelude_crc][headers][payload][message_crc]`.
pub open spec fn eventstream_frame(
    prelude_crc: u32,
    headers: Seq<u8>,
    payload: Seq<u8>,
    message_crc: u32,
) -> Seq<u8> {
    be_bytes32((16 + headers.len() + payload.len()) as nat) + be_bytes32(headers.len()) + be_bytes32(
        prelude_crc as nat,
    ) + headers + payload + be_bytes32(message_crc as nat)
}

proof fn lemma_be_bytes32(n: nat)
    requires
        n < 0x1_0000_0000,
    ensures
        be_bytes32(n).len() == 4,
        be_uint(be_bytes32(n)) == n,
{
    let b = be_bytes32(n);
    reveal_with_fuel(be_uint, 5);
    assert(b.drop_last().drop_last().drop_last().drop_last() =~= Seq::<u8>::empty());
    let a0 = n / 0x100_0000;
    let a1 = (n % 0x100_0000) / 0x1_0000;
    let a2 = (n % 0x1_0000) / 0x100;
    let a3 = n % 0x100;
    assert(((a0 * 256 + a1) * 256 + a2) * 256 + a3 == n) by (nonlinear_arith)
        requires
            a0 == n / 0x100_0000,
            a1 == (n % 0x100_0000) / 0x1_0000,
            a2 == (n % 0x1_0000) / 0x100,
            a3 == n % 0x100,
            n < 0x1_0000_0000,
    ;
    assert(b[0] == a0 && b[1] == a1 && b[2] == a2 && b[3] == a3);
    assert(b.drop_last().drop_last().drop_last() =~= seq![b[0]]);
    assert(b.drop_last().drop_last() =~= seq![b[0], b[1]]);
    assert(b.drop_last() =~= seq![b[0], b[1], b[2]]);
}

/// A message that can be read takes exactly the bytes its `total_length`
/// field counts, which are at least the sixteen of the prelude and CRC.
pub proof fn message_takes_total_length(s: Seq<u8>)
    ensures
        spec_parse_message(s) matches Ok((n, _)) ==> n == frame_total_length(s) && 16 <= n
            <= s.len(),
{
}

/// Bytes that follow a message do not change how it reads.
pub proof fn message_unaffected_by_following_bytes(s: Seq<u8>, t: Seq<u8>)
    requires
        spec_parse_message(s) is Ok,
    ensures
        spec_parse_message(s + t) == spec_parse_message(s),
{
    let u = s + t;
    let (n, _) = spec_parse_message(s).unwrap();
    assert(u.subrange(0, 4) =~= s.subrange(0, 4));
    assert(u.subrange(4, 8) =~= s.subrange(4, 8));
    let hl = frame_headers_length(s);
    assert(u.subrange(12 + hl, n - 4) =~= s.subrange(12 + hl, n - 4));
}

/// A message laid out as the format documents it reads back whole, and
/// carries the data of its payload; the CRCs and headers do not matter.
pub proof fn documented_frame_reads_back(
    prelude_crc: u32,
    headers: Seq<u8>,
    payload: Seq<u8>,
    message_crc: u32,
)
    requires
        16 + headers.len() + payload.len() <= u32::MAX,
    ensures
        spec_parse_message(eventstream_frame(prelude_crc, headers, payload, message_crc)) == Ok::<
            (int, MessageEventView),
            FrameError,
        >(
            (
                16 + headers.len() + payload.len() as int,
                eventstream_payload_event(payload),
            ),
        ),
{
    let total = (16 + headers.len() + payload.len()) as nat;
    let f = eventstream_frame(prelude_crc, headers, payload, message_crc);
    lemma_be_bytes32(total);
    lemma_be_bytes32(headers.len());
    lemma_be_bytes32(prelude_crc as nat);
    lemma_be_bytes32(message_crc as nat);
    assert(f.subrange(0, 4) =~= be_bytes32(total));
    assert(f.subrange(4, 8) =~= be_bytes32(headers.len()));
    assert(f.len() == total);
    assert(f.subrange(12 + headers.len() as int, total - 4) =~= payload);
}

/// A buffer that starts with one whole message yields that message's event
/// followed by the events of what comes after it.
pub proof fn messages_of_concatenation(s: Seq<u8>, t: Seq<u8>)
    requires
        spec_parse_message(s) matches Ok((n, _)) && n == s.len(),
    ensures
        spec_parse_messages(s + t) == seq![spec_parse_message(s).unwrap().1] + spec_parse_messages(
            t,
        ),
{
    message_unaffected_by_following_bytes(s, t);
    assert((s + t).skip(s.len() as int) =~= t);
}

/// A header laid out as the format documents it:
/// `[name_length][name][value_type][value_length][value]`.
pub open spec fn eventstream_header(name: Seq<u8>, value_type: u8, value: Seq<u8>) -> Seq<u8> {
    seq![name.len() as u8] + name + seq![value_type, (value.len() / 0x100) as u8, (value.len() % 0x100) as u8]
        + value
}

/// A header laid out as the format documents it reads back whole: its name
/// read as UTF-8, its value decoded by its type.
pub proof fn documented_header_reads_back(name: Seq<u8>, value_type: u8, value: Seq<u8>)
    requires
        name.len() < 0x100,
        value.len() < 0x1_0000,
    ensures
        spec_parse_header(eventstream_header(name, value_type, value)) == Ok::<
            (int, Seq<char>, HeaderValueView),
            FrameError,
        >(
            (
                4 + name.len() + value.len() as int,
                text_of(name),
                decode_header_value(value_type, value),
            ),
        ),
{
    let h = eventstream_header(name, value_type, value);
    let nl = name.len() as int;
    assert(h[0] == nl);
    assert(h.subrange(nl + 2, nl + 4) =~= seq![
        (value.len() / 0x100) as u8,
        (value.len() % 0x100) as u8,
    ]);
    reveal_with_fuel(be_uint, 3);
    let len_bytes = h.subrange(nl + 2, nl + 4);
    assert(len_bytes.drop_last() =~= seq![len_bytes[0]]);
    assert(seq![len_bytes[0]].drop_last() =~= Seq::<u8>::empty());
    assert(be_uint(len_bytes) == value.len());
    assert(h.subrange(1, 1 + nl) =~= name);
    assert(h[1 + nl] == value_type);
    assert(h.subrange(4 + nl, 4 + nl + value.len()) =~= value);
}

/// Every event read from an EventStream buffer has an empty id and no
/// reconnection time.
pub proof fn eventstream_events_have_no_id_or_retry(s: Seq<u8>)
    ensures
        forall|i: int|
            0 <= i < spec_parse_messages(s).len() ==> {
                let e = #[trigger] spec_parse_messages(s)[i];
                &&& e.id == Seq::<char>::empty()
                &&& e.retry is None
            },
    decreases s.len(),
{
    if s.len() > 0 {
        if let Ok((n, event)) = spec_parse_message(s) {
            if 0 < n <= s.len() {
                eventstream_events_have_no_id_or_retry(s.skip(n));
                let rest = spec_parse_messages(s.skip(n));
                assert forall|i: int| 0 < i < spec_parse_messages(s).len() implies spec_parse_messages(
                    s,
                )[i] == rest[i - 1] by {}
            }
        }
    }
}

/// How the event of a payload reads: when the payload, read as UTF-8, is a
/// JSON document whose `bytes` member is a string that base64-decodes to
/// valid UTF-8, the event carries that decoded text as data, with its JSON
/// `type` member (when a string) as event type, else `message`; otherwise,
/// whatever members the payload has, the event type is `message` and the
/// data is the payload read as UTF-8.  The id is empty and there is no
/// reconnection time.
pub proof fn payload_event_reads_the_carried_document(payload: Seq<u8>)
    ensures
        ({
            let e = eventstream_payload_event(payload);
            &&& e.id == Seq::<char>::empty()
            &&& e.retry is None
            &&& match json_string_member(text_of(payload), "bytes"@) {
                Some(encoded) => match base64_standard_decoding(encoded) {
                    Some(decoded) => if valid_utf8(decoded) {
                        &&& e.data == decode_utf8(decoded)
                        &&& e.event == match json_string_member(decode_utf8(decoded), "type"@) {
                            Some(t) => t,
                            None => "message"@,
                        }
                    } else {
                        e.event == "message"@ && e.data == text_of(payload)
                    },
                    None => e.event == "message"@ && e.data == text_of(payload),
                },
                None => e.event == "message"@ && e.data == text_of(payload),
            }
        }),
{
    let raw = text_of(payload);
    match json_string_member(raw, "bytes"@) {
        Some(encoded) => match base64_standard_decoding(encoded) {
            Some(decoded) => {
                if valid_utf8(decoded) {
                    assert(eventstream_payload_text(payload) == Some(decode_utf8(decoded)));
                } else {
                    assert(eventstream_payload_text(payload) is None);
                }
            },
            None => {
                assert(eventstream_payload_text(payload) is None);
            },
        },
        None => {
            assert(eventstream_payload_text(payload) is None);
        },
    }
}

/// A message laid out as the format documents it reads back whole as the
/// event of its payload (see [`payload_event_reads_the_carried_document`]),
/// with an event type of `message` unless the payload carries a
/// base64-encoded document, whatever other members the payload has.
pub proof fn documented_frame_carries_its_payload(
    prelude_crc: u32,
    headers: Seq<u8>,
    payload: Seq<u8>,
    message_crc: u32,
)
    requires
        16 + headers.len() + payload.len() <= u32::MAX,
        json_string_member(text_of(payload), "bytes"@) is None,
    ensures
        spec_parse_message(eventstream_frame(prelude_crc, headers, payload, message_crc)) == Ok::<
            (int, MessageEventView),
            FrameError,
        >(
            (
                16 + headers.len() + payload.len() as int,
                MessageEventView {
                    event: "message"@,
                    data: text_of(payload),
                    id: Seq::empty(),
                    retry: None,
                },
            ),
        ),
{
    documented_frame_reads_back(prelude_crc, headers, payload, message_crc);
    payload_event_reads_the_carried_document(payload);
}

/// A buffer whose start does not hold a whole message yields no events, so
/// a reader keeps it until more bytes arrive; in particular a buffer shorter
/// than the `total_length` its first message announces yields none.
pub proof fn unreadable_start_yields_no_events(s: Seq<u8>)
    ensures
        spec_parse_message(s) is Err ==> spec_parse_messages(s) == Seq::<MessageEventView>::empty(),
        s.len() < frame_total_length(s) ==> spec_parse_messages(s) == Seq::<
            MessageEventView,
        >::empty(),
{
}

/// Each event read from an EventStream buffer takes at least sixteen of its
/// bytes.
pub proof fn eventstream_events_are_bounded_by_length(s: Seq<u8>)
    ensures
        spec_parse_messages(s).len() * 16 <= s.len(),
    decreases s.len(),
{
    if s.len() > 0 {
        if let Ok((n, _)) = spec_parse_message(s) {
            eventstream_events_are_bounded_by_length(s.skip(n));
        }
    }
}

} // verus!
