use vstd::prelude::*;
use vstd::arithmetic::div_mod::lemma_fundamental_div_mod;
use vstd::arithmetic::mul::lemma_mul_inequality;
use vstd::slice::slice_subrange;
use vstd::utf8::{decode_utf8, encode_utf8, valid_utf8};
use crate::endpoint::{endpoint_text, Endpoint};
use crate::message::{ChatMessage, Content, ContentV};

verus! {

// ---------------------------------------------------------------------------
// The wire envelope: one flat record carrying the message identity, the
// sender's address, a millisecond timestamp, and exactly one tagged payload
// (Text, File, or Ack).
// ---------------------------------------------------------------------------

#[derive(Clone, Debug, PartialEq)]
pub struct TextMessage {
    pub text: String,
}

#[derive(Clone, Debug, PartialEq)]
pub struct FileMessage {
    pub name: String,
    pub data: Vec<u8>,
}

#[derive(Clone, Debug, PartialEq)]
pub struct AckMessage {
    pub message_uuid: String,
}

#[derive(Clone, Debug, PartialEq)]
pub enum MsgType {
    Text(TextMessage),
    File(FileMessage),
    Ack(AckMessage),
}

#[derive(Clone, Debug, PartialEq)]
pub struct ProtoMessage {
    pub uuid: String,
    pub sender_uuid: String,
    pub timestamp: i64,
    pub room_uuid: String,
    pub source_endpoint: String,
    pub msg_type: Option<MsgType>,
}

/// Mathematical image of a payload.
#[verifier::ext_equal]
pub enum MsgTypeV {
    Text(Seq<char>),
    File(Seq<char>, Seq<u8>),
    Ack(Seq<char>),
}

/// Mathematical image of an envelope.
#[verifier::ext_equal]
pub struct ProtoMessageV {
    pub uuid: Seq<char>,
    pub sender_uuid: Seq<char>,
    pub timestamp: i64,
    pub room_uuid: Seq<char>,
    pub source_endpoint: Seq<char>,
    pub msg_type: Option<MsgTypeV>,
}

impl View for MsgType {
    type V = MsgTypeV;

    open spec fn view(&self) -> MsgTypeV {
        match self {
            MsgType::Text(t) => MsgTypeV::Text(t.text@),
            MsgType::File(f) => MsgTypeV::File(f.name@, f.data@),
            MsgType::Ack(a) => MsgTypeV::Ack(a.message_uuid@),
        }
    }
}

impl DeepView for MsgType {
    type V = MsgTypeV;

    open spec fn deep_view(&self) -> MsgTypeV {
        self.view()
    }
}

impl View for ProtoMessage {
    type V = ProtoMessageV;

    open spec fn view(&self) -> ProtoMessageV {
        ProtoMessageV {
            uuid: self.uuid@,
            sender_uuid: self.sender_uuid@,
            timestamp: self.timestamp,
            room_uuid: self.room_uuid@,
            source_endpoint: self.source_endpoint@,
            msg_type: match self.msg_type {
                Some(t) => Some(t@),
                None => None,
            },
        }
    }
}

impl DeepView for ProtoMessage {
    type V = ProtoMessageV;

    open spec fn deep_view(&self) -> ProtoMessageV {
        self.view()
    }
}

/// Raised when an envelope without a payload is asked to encode itself.
#[derive(Clone, Copy, Debug, PartialEq, Eq, Structural)]
pub enum EncodeError {
    MissingPayload,
}

/// Raised when bytes from the wire do not spell a complete envelope.
#[derive(Clone, Copy, Debug, PartialEq, Eq, Structural)]
pub enum DecodeError {
    Malformed,
}

// ---------------------------------------------------------------------------
// Base-128 varints, least significant group first: every byte but the last
// carries seven payload bits and a set continuation bit.
// ---------------------------------------------------------------------------

/// Varint encoding of `n`.
pub open spec fn vencode(n: u64) -> Seq<u8>
    decreases n,
{
    if n < 0x80 {
        seq![n as u8]
    } else {
        seq![(n % 0x80 + 0x80) as u8] + vencode(n / 0x80)
    }
}

/// Varint decoding of a prefix of `b`: the value and how many bytes it took,
/// or `None` when `b` is empty, ends inside a varint, or the value would not
/// fit in 64 bits.
pub open spec fn vdecode(b: Seq<u8>) -> Option<(u64, int)>
    decreases b.len(),
{
    if b.len() == 0 {
        None
    } else if b[0] < 0x80 {
        Some((b[0] as u64, 1))
    } else {
        match vdecode(b.skip(1)) {
            None => None,
            Some((v, k)) => {
                let low = (b[0] - 0x80) as u64;
                if v <= (u64::MAX - low) as u64 / 0x80 {
                    Some(((low + 0x80 * v) as u64, k + 1))
                } else {
                    None
                }
            },
        }
    }
}

/// For non-negative values, `v <= m / c` says exactly that `c * v <= m`.
proof fn lemma_div_mul_order(v: int, c: int, m: int)
    requires
        c > 0,
        0 <= v,
        0 <= m,
    ensures
        v <= m / c <==> c * v <= m,
{
    lemma_fundamental_div_mod(m, c);
    if v <= m / c {
        lemma_mul_inequality(v, m / c, c);
        assert(v * c == c * v) by (nonlinear_arith);
        assert((m / c) * c == c * (m / c)) by (nonlinear_arith);
    }
    if c * v <= m && v > m / c {
        lemma_mul_inequality(m / c + 1, v, c);
        assert((m / c + 1) * c == c * (m / c) + c) by (nonlinear_arith);
        assert(v * c == c * v) by (nonlinear_arith);
    }
}

/// Decoding inverts encoding, whatever follows the encoded bytes.
pub proof fn lemma_vdecode_vencode(n: u64, rest: Seq<u8>)
    ensures
        vdecode(vencode(n) + rest) == Some((n, vencode(n).len() as int)),
    decreases n,
{
    let s = vencode(n) + rest;
    if n < 0x80 {
        assert(s[0] == n as u8);
    } else {
        assert(s[0] == (n % 0x80 + 0x80) as u8);
        assert(s.skip(1) =~= vencode(n / 0x80) + rest);
        lemma_vdecode_vencode(n / 0x80, rest);
        let low = (s[0] - 0x80) as u64;
        assert(low == n % 0x80);
        lemma_fundamental_div_mod(n as int, 0x80);
        lemma_div_mul_order(n as int / 0x80, 0x80, u64::MAX - low);
        assert(n as int / 0x80 == (n / 0x80) as int);
        assert(0x80 * ((n / 0x80) as int) <= u64::MAX - low);
        assert((n / 0x80) as u64 <= (u64::MAX - low) as u64 / 0x80);
        assert(low + 0x80 * (n / 0x80) == n);
    }
}

/// Writes the varint encoding of `n` after what `out` already holds.
fn write_varint(out: &mut Vec<u8>, n: u64)
    ensures
        final(out)@ == old(out)@ + vencode(n),
{
    let ghost n0 = n;
    let ghost base = old(out)@;
    let mut n = n;
    while n >= 0x80
        invariant
            base + vencode(n0) == out@ + vencode(n),
        decreases n,
    {
        out.push((n % 0x80 + 0x80) as u8);
        proof {
            assert(vencode(n) == seq![(n % 0x80 + 0x80) as u8] + vencode(n / 0x80));
            assert(out@ + vencode(n / 0x80) =~= base + vencode(n0));
        }
        n = n / 0x80;
    }
    out.push(n as u8);
    proof {
        assert(vencode(n) =~= seq![n as u8]);
        assert(out@ =~= base + vencode(n0));
    }
}

// ---------------------------------------------------------------------------
// Field layout. Every field starts with a one-byte tag; strings, byte blobs
// and sub-records follow as a varint byte count plus that many bytes, the
// timestamp as a bare varint (two's complement for negative instants).
// The envelope is the five header fields in order, then exactly one payload.
// ---------------------------------------------------------------------------

pub const TAG_UUID: u8 = 0x0A;

pub const TAG_SENDER: u8 = 0x12;

pub const TAG_TIMESTAMP: u8 = 0x18;

pub const TAG_ROOM: u8 = 0x22;

pub const TAG_SOURCE: u8 = 0x2A;

pub const TAG_TEXT: u8 = 0x32;

pub const TAG_FILE: u8 = 0x3A;

pub const TAG_ACK: u8 = 0x42;

pub const TAG_SUB1: u8 = 0x0A;

pub const TAG_SUB2: u8 = 0x12;

/// A tagged, length-prefixed block of bytes.
pub open spec fn len_field(tag: u8, payload: Seq<u8>) -> Seq<u8> {
    seq![tag] + vencode(payload.len() as u64) + payload
}

/// A tagged, length-prefixed string, carried as its UTF-8 bytes.
pub open spec fn str_field(tag: u8, s: Seq<char>) -> Seq<u8> {
    len_field(tag, encode_utf8(s))
}

/// Encoding of the payload part of an envelope.
pub open spec fn spec_encode_payload(t: MsgTypeV) -> Seq<u8> {
    match t {
        MsgTypeV::Text(text) => len_field(TAG_TEXT, str_field(TAG_SUB1, text)),
        MsgTypeV::File(name, data) => len_field(
            TAG_FILE,
            str_field(TAG_SUB1, name) + len_field(TAG_SUB2, data),
        ),
        MsgTypeV::Ack(acked) => len_field(TAG_ACK, str_field(TAG_SUB1, acked)),
    }
}

/// Encoding of a whole envelope; meaningful when a payload is present.
pub open spec fn spec_encode(m: ProtoMessageV) -> Seq<u8> {
    str_field(TAG_UUID, m.uuid) + str_field(TAG_SENDER, m.sender_uuid) + (seq![TAG_TIMESTAMP]
        + vencode(m.timestamp as u64)) + str_field(TAG_ROOM, m.room_uuid) + str_field(
        TAG_SOURCE,
        m.source_endpoint,
    ) + match m.msg_type {
        Some(t) => spec_encode_payload(t),
        None => Seq::<u8>::empty(),
    }
}

/// Reads one tagged, length-prefixed block from the front of `b`: the block's
/// bytes and how much of `b` the field took.
pub open spec fn parse_len_field(b: Seq<u8>, tag: u8) -> Option<(Seq<u8>, int)> {
    if b.len() >= 1 && b[0] == tag {
        match vdecode(b.skip(1)) {
            Some((len, k)) => if b.len() >= 1 + k + len {
                Some((b.subrange(1 + k, 1 + k + len as int), 1 + k + len as int))
            } else {
                None
            },
            None => None,
        }
    } else {
        None
    }
}

/// Reads one tagged string field; the bytes must be valid UTF-8.
pub open spec fn parse_str_field(b: Seq<u8>, tag: u8) -> Option<(Seq<char>, int)> {
    match parse_len_field(b, tag) {
        Some((p, k)) => if valid_utf8(p) {
            Some((decode_utf8(p), k))
        } else {
            None
        },
        None => None,
    }
}

/// Reads the timestamp field from the front of `b`.
pub open spec fn parse_ts_field(b: Seq<u8>) -> Option<(u64, int)> {
    if b.len() >= 1 && b[0] == TAG_TIMESTAMP {
        match vdecode(b.skip(1)) {
            Some((v, k)) => Some((v, k + 1)),
            None => None,
        }
    } else {
        None
    }
}

/// Reads the payload, which must fill `b` exactly.
pub open spec fn parse_payload(b: Seq<u8>) -> Option<MsgTypeV> {
    if b.len() >= 1 && b[0] == TAG_TEXT {
        match parse_len_field(b, TAG_TEXT) {
            Some((sub, k)) => if k == b.len() {
                match parse_str_field(sub, TAG_SUB1) {
                    Some((text, k2)) => if k2 == sub.len() {
                        Some(MsgTypeV::Text(text))
                    } else {
                        None
                    },
                    None => None,
                }
            } else {
                None
            },
            None => None,
        }
    } else if b.len() >= 1 && b[0] == TAG_FILE {
        match parse_len_field(b, TAG_FILE) {
            Some((sub, k)) => if k == b.len() {
                match parse_str_field(sub, TAG_SUB1) {
                    Some((name, k2)) => match parse_len_field(sub.skip(k2), TAG_SUB2) {
                        Some((data, k3)) => if k2 + k3 == sub.len() {
                            Some(MsgTypeV::File(name, data))
                        } else {
                            None
                        },
                        None => None,
                    },
                    None => None,
                }
            } else {
                None
            },
            None => None,
        }
    } else if b.len() >= 1 && b[0] == TAG_ACK {
        match parse_len_field(b, TAG_ACK) {
            Some((sub, k)) => if k == b.len() {
                match parse_str_field(sub, TAG_SUB1) {
                    Some((acked, k2)) => if k2 == sub.len() {
                        Some(MsgTypeV::Ack(acked))
                    } else {
                        None
                    },
                    None => None,
                }
            } else {
                None
            },
            None => None,
        }
    } else {
        None
    }
}

/// What a byte string decodes to: the header fields in order, then the
/// payload filling the rest exactly; anything else is rejected.
pub open spec fn spec_decode(b: Seq<u8>) -> Option<ProtoMessageV> {
    match parse_str_field(b, TAG_UUID) {
        None => None,
        Some((uuid, k1)) => match parse_str_field(b.skip(k1), TAG_SENDER) {
            None => None,
            Some((sender, k2)) => match parse_ts_field(b.skip(k1).skip(k2)) {
                None => None,
                Some((ts, k3)) => match parse_str_field(b.skip(k1).skip(k2).skip(k3), TAG_ROOM) {
                    None => None,
                    Some((room, k4)) => match parse_str_field(
                        b.skip(k1).skip(k2).skip(k3).skip(k4),
                        TAG_SOURCE,
                    ) {
                        None => None,
                        Some((source, k5)) => match parse_payload(
                            b.skip(k1).skip(k2).skip(k3).skip(k4).skip(k5),
                        ) {
                            None => None,
                            Some(t) => Some(
                                ProtoMessageV {
                                    uuid,
                                    sender_uuid: sender,
                                    timestamp: ts as i64,
                                    room_uuid: room,
                                    source_endpoint: source,
                                    msg_type: Some(t),
                                },
                            ),
                        },
                    },
                },
            },
        },
    }
}

/// Reads one varint starting at `pos`, mirroring [`vdecode`] on `b@.skip(pos)`.
fn read_varint(b: &Vec<u8>, pos: usize) -> (r: Option<(u64, usize)>)
    requires
        pos <= b@.len(),
    ensures
        match r {
            Some(v_end) => {
                &&& pos < v_end.1 <= b@.len()
                &&& vdecode(b@.skip(pos as int)) == Some((v_end.0, v_end.1 - pos as int))
            },
            None => vdecode(b@.skip(pos as int)) is None,
        },
    decreases b@.len() - pos,
{
    let ghost s = b@.skip(pos as int);
    if pos == b.len() {
        return None;
    }
    let byte = b[pos];
    assert(s[0] == b@[pos as int]);
    if byte < 0x80 {
        Some((byte as u64, pos + 1))
    } else {
        assert(s.skip(1) =~= b@.skip(pos as int + 1));
        match read_varint(b, pos + 1) {
            None => None,
            Some((v, end)) => {
                let low = byte - 0x80;
                if v <= (u64::MAX - low as u64) / 0x80 {
                    proof {
                        lemma_div_mul_order(v as int, 0x80, u64::MAX - low as u64);
                    }
                    Some((low as u64 + 0x80 * v, end))
                } else {
                    None
                }
            },
        }
    }
}

/// The payload that carries a message's content on the wire.
pub open spec fn payload_of_content(c: ContentV) -> MsgTypeV {
    match c {
        ContentV::Text(t) => MsgTypeV::Text(t),
        ContentV::File(name, data) => MsgTypeV::File(name, data),
    }
}

impl ProtoMessage {
    /// The wire envelope for an outbound chat message. The source endpoint
    /// field carries the local endpoint's canonical text, or `"??"` when no
    /// local endpoint was given.
    pub fn new_text(msg: &ChatMessage, local_endpoint: Option<Endpoint>) -> (r: ProtoMessage)
        ensures
            r@.uuid == msg@.uuid,
            r@.sender_uuid == msg@.sender_uuid,
            r@.timestamp as int == msg@.send_time,
            r@.room_uuid == msg@.room_uuid,
            r@.source_endpoint == (match local_endpoint {
                Some(ep) => endpoint_text(ep@),
                None => "??"@,
            }),
            r@.msg_type == Some(payload_of_content(msg@.content)),
    {
        let msg_type = match msg.content.duplicate() {
            Content::Text(text) => MsgType::Text(TextMessage { text }),
            Content::File(name, data) => MsgType::File(FileMessage { name, data }),
        };
        ProtoMessage {
            uuid: msg.uuid.clone(),
            sender_uuid: msg.sender_uuid.clone(),
            timestamp: msg.send_time.timestamp_millis(),
            room_uuid: msg.room_uuid.clone(),
            source_endpoint: match local_endpoint {
                Some(ep) => ep.to_string(),
                None => String::from_str("??"),
            },
            msg_type: Some(msg_type),
        }
    }

    /// The acknowledgement envelope for a received message: a fresh identity,
    /// the acknowledging peer as sender, the given instant as timestamp, and
    /// the acknowledged message's identity as payload.
    pub fn new_ack(
        for_msg: &ChatMessage,
        local_peer_uuid: String,
        local_endpoint: Option<Endpoint>,
        timestamp: i64,
    ) -> (r: ProtoMessage)
        ensures
            r@.uuid.len() == 36,
            r@.sender_uuid == local_peer_uuid@,
            r@.timestamp == timestamp,
            r@.room_uuid == for_msg@.room_uuid,
            r@.source_endpoint == (match local_endpoint {
                Some(ep) => endpoint_text(ep@),
                None => "??"@,
            }),
            r@.msg_type == Some(MsgTypeV::Ack(for_msg@.uuid)),
    {
        ProtoMessage {
            uuid: crate::dtchat::generate_uuid(),
            sender_uuid: local_peer_uuid,
            timestamp,
            room_uuid: for_msg.room_uuid.clone(),
            source_endpoint: match local_endpoint {
                Some(ep) => ep.to_string(),
                None => String::from_str("??"),
            },
            msg_type: Some(MsgType::Ack(AckMessage { message_uuid: for_msg.uuid.clone() })),
        }
    }
}

// ---------------------------------------------------------------------------
// The encoding round-trips through the parser.
// ---------------------------------------------------------------------------

/// A field payload small enough that every derived length fits a varint.
pub open spec fn field_fits(bytes_len: nat) -> bool {
    bytes_len <= 0xffff_ffff_ffff
}

pub open spec fn msg_type_fits(t: MsgTypeV) -> bool {
    match t {
        MsgTypeV::Text(text) => field_fits(encode_utf8(text).len()),
        MsgTypeV::File(name, data) => field_fits(encode_utf8(name).len()) && field_fits(data.len()),
        MsgTypeV::Ack(acked) => field_fits(encode_utf8(acked).len()),
    }
}

/// The machine-size bounds under which an envelope can exist in memory at
/// all: no field's byte form outgrows a 64-bit length.
pub open spec fn envelope_fits(m: ProtoMessageV) -> bool {
    &&& field_fits(encode_utf8(m.uuid).len())
    &&& field_fits(encode_utf8(m.sender_uuid).len())
    &&& field_fits(encode_utf8(m.room_uuid).len())
    &&& field_fits(encode_utf8(m.source_endpoint).len())
    &&& match m.msg_type {
        Some(t) => msg_type_fits(t),
        None => true,
    }
}

/// A varint never takes more bytes than the value it encodes, plus one.
proof fn lemma_vencode_len(n: u64)
    ensures
        1 <= vencode(n).len() <= n + 1,
    decreases n,
{
    if n >= 0x80 {
        lemma_vencode_len(n / 0x80);
        vstd::arithmetic::div_mod::lemma_div_decreases(n as int, 0x80);
    }
}

proof fn lemma_parse_len_field_round_trip(tag: u8, p: Seq<u8>, rest: Seq<u8>)
    requires
        p.len() <= u64::MAX,
    ensures
        parse_len_field(len_field(tag, p) + rest, tag) == Some(
            (p, len_field(tag, p).len() as int),
        ),
        (len_field(tag, p) + rest).skip(len_field(tag, p).len() as int) == rest,
{
    let enc = len_field(tag, p);
    let b = enc + rest;
    let lenb = vencode(p.len() as u64);
    let k = lenb.len() as int;
    assert(b[0] == tag);
    assert(b.skip(1) =~= lenb + (p + rest));
    lemma_vdecode_vencode(p.len() as u64, p + rest);
    assert(b.len() >= 1 + k + p.len());
    assert(b.subrange(1 + k, 1 + k + p.len() as int) =~= p);
    assert(b.skip(enc.len() as int) =~= rest);
}

proof fn lemma_parse_str_field_round_trip(tag: u8, s: Seq<char>, rest: Seq<u8>)
    requires
        encode_utf8(s).len() <= u64::MAX,
    ensures
        parse_str_field(str_field(tag, s) + rest, tag) == Some(
            (s, str_field(tag, s).len() as int),
        ),
        (str_field(tag, s) + rest).skip(str_field(tag, s).len() as int) == rest,
{
    broadcast use vstd::utf8::encode_utf8_valid_utf8, vstd::utf8::encode_utf8_decode_utf8;

    lemma_parse_len_field_round_trip(tag, encode_utf8(s), rest);
}

proof fn lemma_parse_ts_field_round_trip(u: u64, rest: Seq<u8>)
    ensures
        parse_ts_field((seq![TAG_TIMESTAMP] + vencode(u)) + rest) == Some(
            (u, (seq![TAG_TIMESTAMP] + vencode(u)).len() as int),
        ),
        ((seq![TAG_TIMESTAMP] + vencode(u)) + rest).skip(
            (seq![TAG_TIMESTAMP] + vencode(u)).len() as int,
        ) == rest,
{
    let enc = seq![TAG_TIMESTAMP] + vencode(u);
    let b = enc + rest;
    assert(b[0] == TAG_TIMESTAMP);
    assert(b.skip(1) =~= vencode(u) + rest);
    lemma_vdecode_vencode(u, rest);
    assert(b.skip(enc.len() as int) =~= rest);
}

proof fn lemma_parse_payload_round_trip(t: MsgTypeV)
    requires
        msg_type_fits(t),
    ensures
        parse_payload(spec_encode_payload(t)) == Some(t),
{
    let empty = Seq::<u8>::empty();
    match t {
        MsgTypeV::Text(text) => {
            let sub = str_field(TAG_SUB1, text);
            lemma_vencode_len(encode_utf8(text).len() as u64);
            lemma_parse_str_field_round_trip(TAG_SUB1, text, empty);
            assert(sub + empty =~= sub);
            lemma_parse_len_field_round_trip(TAG_TEXT, sub, empty);
            let enc = len_field(TAG_TEXT, sub);
            assert(enc + empty =~= enc);
            assert(enc[0] == TAG_TEXT);
        },
        MsgTypeV::File(name, data) => {
            let dfield = len_field(TAG_SUB2, data);
            lemma_vencode_len(encode_utf8(name).len() as u64);
            lemma_vencode_len(data.len() as u64);
            lemma_parse_str_field_round_trip(TAG_SUB1, name, dfield);
            lemma_parse_len_field_round_trip(TAG_SUB2, data, empty);
            assert(dfield + empty =~= dfield);
            let sub = str_field(TAG_SUB1, name) + dfield;
            lemma_parse_len_field_round_trip(TAG_FILE, sub, empty);
            let enc = len_field(TAG_FILE, sub);
            assert(enc + empty =~= enc);
            assert(enc[0] == TAG_FILE);
        },
        MsgTypeV::Ack(acked) => {
            let sub = str_field(TAG_SUB1, acked);
            lemma_vencode_len(encode_utf8(acked).len() as u64);
            lemma_parse_str_field_round_trip(TAG_SUB1, acked, empty);
            assert(sub + empty =~= sub);
            lemma_parse_len_field_round_trip(TAG_ACK, sub, empty);
            let enc = len_field(TAG_ACK, sub);
            assert(enc + empty =~= enc);
            assert(enc[0] == TAG_ACK);
        },
    }
}

/// Decoding inverts encoding: for every envelope that carries a payload and
/// fits in memory, the bytes `encode` produces are read back by `decode` as
/// the same envelope. Together with the contracts of [`ProtoMessage::encode_to_vec`]
/// and [`ProtoMessage::decode_from_vec`], this is the wire-format round trip
/// for the Text, File, and Ack variants, empty payloads included.
pub proof fn lemma_encode_decode_round_trip(m: ProtoMessageV)
    requires
        m.msg_type is Some,
        envelope_fits(m),
    ensures
        spec_decode(spec_encode(m)) == Some(m),
{
    let f1 = str_field(TAG_UUID, m.uuid);
    let f2 = str_field(TAG_SENDER, m.sender_uuid);
    let u = m.timestamp as u64;
    let f3 = seq![TAG_TIMESTAMP] + vencode(u);
    let f4 = str_field(TAG_ROOM, m.room_uuid);
    let f5 = str_field(TAG_SOURCE, m.source_endpoint);
    let payload = spec_encode_payload(m.msg_type.unwrap());
    let b = spec_encode(m);
    let r1 = f2 + (f3 + (f4 + (f5 + payload)));
    let r2 = f3 + (f4 + (f5 + payload));
    let r3 = f4 + (f5 + payload);
    let r4 = f5 + payload;
    assert(b =~= f1 + r1);
    lemma_parse_str_field_round_trip(TAG_UUID, m.uuid, r1);
    let k1 = f1.len() as int;
    lemma_parse_str_field_round_trip(TAG_SENDER, m.sender_uuid, r2);
    let k2 = f2.len() as int;
    lemma_parse_ts_field_round_trip(u, r3);
    let k3 = f3.len() as int;
    lemma_parse_str_field_round_trip(TAG_ROOM, m.room_uuid, r4);
    let k4 = f4.len() as int;
    lemma_parse_str_field_round_trip(TAG_SOURCE, m.source_endpoint, payload);
    let k5 = f5.len() as int;
    lemma_parse_payload_round_trip(m.msg_type.unwrap());
    assert(b.skip(k1) == r1);
    assert(b.skip(k1).skip(k2) == r2);
    assert(b.skip(k1).skip(k2).skip(k3) == r3);
    assert(b.skip(k1).skip(k2).skip(k3).skip(k4) == r4);
    assert(b.skip(k1).skip(k2).skip(k3).skip(k4).skip(k5) == payload);
    let t = m.timestamp;
    assert((t as u64) as i64 == t) by (bit_vector);
    assert(u as i64 == m.timestamp);
    assert(spec_decode(b) == Some(m));
}

/// Relies on core::str::from_utf8: it succeeds exactly on valid UTF-8 and
/// yields the characters that the bytes encode.
#[verifier::external_body]
fn utf8_to_string(bytes: &[u8]) -> (r: Option<String>)
    ensures
        match r {
            Some(s) => valid_utf8(bytes@) && s@ == decode_utf8(bytes@),
            None => !valid_utf8(bytes@),
        },
{
    match core::str::from_utf8(bytes) {
        Ok(s) => Some(s.to_owned()),
        Err(_) => None,
    }
}

/// Appends every byte of `b` to `out`.
fn push_bytes(out: &mut Vec<u8>, b: &[u8])
    ensures
        final(out)@ == old(out)@ + b@,
{
    let n = b.len();
    let mut i: usize = 0;
    while i < n
        invariant
            n == b@.len(),
            i <= n,
            out@ == old(out)@ + b@.subrange(0, i as int),
        decreases n - i,
    {
        out.push(b[i]);
        proof {
            assert(old(out)@ + b@.subrange(0, i + 1) =~= (old(out)@ + b@.subrange(0, i as int)).push(
                b@[i as int],
            ));
        }
        i += 1;
    }
    proof {
        assert(b@.subrange(0, n as int) =~= b@);
    }
}

/// Writes one tagged string field.
fn write_str_field(out: &mut Vec<u8>, tag: u8, s: &str)
    ensures
        final(out)@ == old(out)@ + str_field(tag, s@),
{
    out.push(tag);
    let bytes: &[u8] = s.as_bytes();
    write_varint(out, bytes.len() as u64);
    push_bytes(out, bytes);
    proof {
        assert(final(out)@ =~= old(out)@ + str_field(tag, s@));
    }
}

/// Writes one tagged, length-prefixed block of bytes.
fn write_bytes_field(out: &mut Vec<u8>, tag: u8, payload: &[u8])
    ensures
        final(out)@ == old(out)@ + len_field(tag, payload@),
{
    out.push(tag);
    write_varint(out, payload.len() as u64);
    push_bytes(out, payload);
    proof {
        assert(final(out)@ =~= old(out)@ + len_field(tag, payload@));
    }
}

/// Writes the payload part of an envelope.
fn write_payload(out: &mut Vec<u8>, t: &MsgType)
    ensures
        final(out)@ == old(out)@ + spec_encode_payload(t@),
{
    let mut sub: Vec<u8> = Vec::new();
    let tag: u8 = match t {
        MsgType::Text(text_part) => {
            write_str_field(&mut sub, TAG_SUB1, text_part.text.as_str());
            TAG_TEXT
        },
        MsgType::File(file_part) => {
            write_str_field(&mut sub, TAG_SUB1, file_part.name.as_str());
            write_bytes_field(&mut sub, TAG_SUB2, file_part.data.as_slice());
            TAG_FILE
        },
        MsgType::Ack(ack_part) => {
            write_str_field(&mut sub, TAG_SUB1, ack_part.message_uuid.as_str());
            TAG_ACK
        },
    };
    write_bytes_field(out, tag, sub.as_slice());
    proof {
        assert(final(out)@ =~= old(out)@ + spec_encode_payload(t@));
    }
}

impl ProtoMessage {
    /// Serializes the envelope; fails exactly when it carries no payload.
    pub fn encode_to_vec(&self) -> (r: Result<Vec<u8>, EncodeError>)
        ensures
            match r {
                Ok(bytes) => self@.msg_type is Some && bytes@ == spec_encode(self@),
                Err(_) => self@.msg_type is None,
            },
    {
        let t = match &self.msg_type {
            Some(t) => t,
            None => {
                return Err(EncodeError::MissingPayload);
            },
        };
        let mut out: Vec<u8> = Vec::new();
        write_str_field(&mut out, TAG_UUID, self.uuid.as_str());
        write_str_field(&mut out, TAG_SENDER, self.sender_uuid.as_str());
        out.push(TAG_TIMESTAMP);
        write_varint(&mut out, self.timestamp as u64);
        write_str_field(&mut out, TAG_ROOM, self.room_uuid.as_str());
        write_str_field(&mut out, TAG_SOURCE, self.source_endpoint.as_str());
        write_payload(&mut out, t);
        proof {
            assert(out@ =~= spec_encode(self@));
        }
        Ok(out)
    }
}

/// Reads one tagged, length-prefixed block starting at `pos`; returns where
/// its payload starts and ends in `b`, mirroring [`parse_len_field`].
fn read_len_field(b: &Vec<u8>, pos: usize, tag: u8) -> (r: Option<(usize, usize)>)
    requires
        pos <= b@.len(),
    ensures
        match r {
            Some(se) => {
                &&& pos < se.0 <= se.1 <= b@.len()
                &&& parse_len_field(b@.skip(pos as int), tag) == Some(
                    (b@.subrange(se.0 as int, se.1 as int), se.1 - pos as int),
                )
            },
            None => parse_len_field(b@.skip(pos as int), tag) is None,
        },
{
    let ghost s = b@.skip(pos as int);
    if pos == b.len() {
        return None;
    }
    assert(s[0] == b@[pos as int]);
    if b[pos] != tag {
        return None;
    }
    assert(s.skip(1) =~= b@.skip(pos as int + 1));
    match read_varint(b, pos + 1) {
        None => None,
        Some((len, vend)) => {
            if len <= (b.len() - vend) as u64 {
                let start = vend;
                let end = vend + (len as usize);
                proof {
                    let k = vend - (pos + 1) as int;
                    assert(s.len() >= 1 + k + len);
                    assert(s.subrange(1 + k, 1 + k + len as int) =~= b@.subrange(
                        start as int,
                        end as int,
                    ));
                }
                Some((start, end))
            } else {
                proof {
                    let k = vend - (pos + 1) as int;
                    assert(s.len() < 1 + k + len);
                }
                None
            }
        },
    }
}

/// Reads one tagged string field starting at `pos`.
fn read_str_field(b: &Vec<u8>, pos: usize, tag: u8) -> (r: Option<(String, usize)>)
    requires
        pos <= b@.len(),
    ensures
        match r {
            Some(se) => {
                &&& pos < se.1 <= b@.len()
                &&& parse_str_field(b@.skip(pos as int), tag) == Some((se.0@, se.1 - pos as int))
            },
            None => parse_str_field(b@.skip(pos as int), tag) is None,
        },
{
    match read_len_field(b, pos, tag) {
        None => None,
        Some((start, end)) => {
            let sl = slice_subrange(b.as_slice(), start, end);
            match utf8_to_string(sl) {
                Some(s) => Some((s, end)),
                None => None,
            }
        },
    }
}

/// Reads the timestamp field starting at `pos`.
fn read_ts_field(b: &Vec<u8>, pos: usize) -> (r: Option<(u64, usize)>)
    requires
        pos <= b@.len(),
    ensures
        match r {
            Some(ve) => {
                &&& pos < ve.1 <= b@.len()
                &&& parse_ts_field(b@.skip(pos as int)) == Some((ve.0, ve.1 - pos as int))
            },
            None => parse_ts_field(b@.skip(pos as int)) is None,
        },
{
    let ghost s = b@.skip(pos as int);
    if pos == b.len() {
        return None;
    }
    assert(s[0] == b@[pos as int]);
    if b[pos] != TAG_TIMESTAMP {
        return None;
    }
    assert(s.skip(1) =~= b@.skip(pos as int + 1));
    match read_varint(b, pos + 1) {
        None => None,
        Some((v, end)) => Some((v, end)),
    }
}

/// Reads the payload starting at `pos`; it must reach the end of `b`.
fn read_payload(b: &Vec<u8>, pos: usize) -> (r: Option<MsgType>)
    requires
        pos <= b@.len(),
    ensures
        match r {
            Some(t) => parse_payload(b@.skip(pos as int)) == Some(t@),
            None => parse_payload(b@.skip(pos as int)) is None,
        },
{
    let ghost s = b@.skip(pos as int);
    if pos == b.len() {
        return None;
    }
    assert(s[0] == b@[pos as int]);
    let tag = b[pos];
    if tag == TAG_TEXT {
        match read_len_field(b, pos, TAG_TEXT) {
            None => None,
            Some((start, end)) => {
                if end != b.len() {
                    return None;
                }
                let ghost sub = b@.subrange(start as int, end as int);
                assert(sub =~= b@.skip(start as int));
                match read_str_field(b, start, TAG_SUB1) {
                    None => None,
                    Some((text, tend)) => {
                        if tend == end {
                            Some(MsgType::Text(TextMessage { text }))
                        } else {
                            None
                        }
                    },
                }
            },
        }
    } else if tag == TAG_FILE {
        match read_len_field(b, pos, TAG_FILE) {
            None => None,
            Some((start, end)) => {
                if end != b.len() {
                    return None;
                }
                let ghost sub = b@.subrange(start as int, end as int);
                assert(sub =~= b@.skip(start as int));
                match read_str_field(b, start, TAG_SUB1) {
                    None => None,
                    Some((name, nend)) => {
                        assert(sub.skip(nend - start) =~= b@.skip(nend as int));
                        match read_len_field(b, nend, TAG_SUB2) {
                            None => None,
                            Some((dstart, dend)) => {
                                if dend == end {
                                    let dsl = slice_subrange(b.as_slice(), dstart, dend);
                                    let data = vstd::slice::slice_to_vec(dsl);
                                    Some(MsgType::File(FileMessage { name, data }))
                                } else {
                                    None
                                }
                            },
                        }
                    },
                }
            },
        }
    } else if tag == TAG_ACK {
        match read_len_field(b, pos, TAG_ACK) {
            None => None,
            Some((start, end)) => {
                if end != b.len() {
                    return None;
                }
                let ghost sub = b@.subrange(start as int, end as int);
                assert(sub =~= b@.skip(start as int));
                match read_str_field(b, start, TAG_SUB1) {
                    None => None,
                    Some((acked, aend)) => {
                        if aend == end {
                            Some(MsgType::Ack(AckMessage { message_uuid: acked }))
                        } else {
                            None
                        }
                    },
                }
            },
        }
    } else {
        None
    }
}

impl ProtoMessage {
    /// Deserializes an envelope, failing closed on anything malformed.
    pub fn decode_from_vec(vec: Vec<u8>) -> (r: Result<ProtoMessage, DecodeError>)
        ensures
            match r {
                Ok(m) => spec_decode(vec@) == Some(m@) && m@.msg_type is Some,
                Err(_) => spec_decode(vec@) is None,
            },
    {
        let b = &vec;
        assert(b@.skip(0) =~= b@);
        let (uuid, p1) = match read_str_field(b, 0, TAG_UUID) {
            Some(x) => x,
            None => {
                return Err(DecodeError::Malformed);
            },
        };
        assert(b@.skip(0).skip(p1 as int) =~= b@.skip(p1 as int));
        let (sender_uuid, p2) = match read_str_field(b, p1, TAG_SENDER) {
            Some(x) => x,
            None => {
                return Err(DecodeError::Malformed);
            },
        };
        assert(b@.skip(p1 as int).skip(p2 - p1 as int) =~= b@.skip(p2 as int));
        let (ts, p3) = match read_ts_field(b, p2) {
            Some(x) => x,
            None => {
                return Err(DecodeError::Malformed);
            },
        };
        assert(b@.skip(p2 as int).skip(p3 - p2 as int) =~= b@.skip(p3 as int));
        let (room_uuid, p4) = match read_str_field(b, p3, TAG_ROOM) {
            Some(x) => x,
            None => {
                return Err(DecodeError::Malformed);
            },
        };
        assert(b@.skip(p3 as int).skip(p4 - p3 as int) =~= b@.skip(p4 as int));
        let (source_endpoint, p5) = match read_str_field(b, p4, TAG_SOURCE) {
            Some(x) => x,
            None => {
                return Err(DecodeError::Malformed);
            },
        };
        assert(b@.skip(p4 as int).skip(p5 - p4 as int) =~= b@.skip(p5 as int));
        let t = match read_payload(b, p5) {
            Some(t) => t,
            None => {
                return Err(DecodeError::Malformed);
            },
        };
        Ok(
            ProtoMessage {
                uuid,
                sender_uuid,
                timestamp: ts as i64,
                room_uuid,
                source_endpoint,
                msg_type: Some(t),
            },
        )
    }
}

} // verus!
