//! Wire codec for the session protocol.
//!
//! Every message travels as a fixed 13-byte self-describing header,
//! followed by a raw payload for bulk audio data.  All multi-byte fields
//! are little-endian:
//!
//! ```text
//! magic:u16 | version:u8 | msg_type:u8 | payload_size:u16 |
//! sample_rate:u32 | channels:u8 | bits_per_sample:u8 | sample_kind:u8
//! ```
//!
//! The format fields carry the negotiated [`AudioHeader`] in an
//! `AudioHeader` message and are zero elsewhere; `payload_size` is the
//! byte count of the raw audio payload that follows a `Data` message and
//! zero elsewhere.  The magic number and the version byte let a peer
//! refuse a mismatched connection deterministically instead of
//! mis-parsing the stream.

use vstd::prelude::*;
use vstd::bytes::*;
use vstd::slice::*;
use vstd::assert_seqs_equal;

use crate::format::AudioHeader;
use crate::format::SampleFormat;

verus! {

/// First two bytes of every message; a wrong value means the peer is not
/// speaking this protocol.
pub const PROTOCOL_MAGIC: u16 = 0xA1B2;

/// Protocol revision carried in every header.
pub const PROTOCOL_VERSION: u8 = 1;

/// Byte length of the fixed message header.
pub const HEADER_LEN: usize = 13;

/// Largest payload one `Data` message can carry (the field is a `u16`).
pub const MAX_PAYLOAD: usize = 65535;

pub const CODE_HELLO: u8 = 0;
pub const CODE_OK: u8 = 1;
pub const CODE_BYE: u8 = 2;
pub const CODE_START_PLAYING: u8 = 3;
pub const CODE_STOP_PLAYING: u8 = 4;
pub const CODE_AUDIO_HEADER: u8 = 5;
pub const CODE_DATA: u8 = 6;

/// The kind of a protocol message, without its payload.
#[derive(Clone, Copy, Debug, PartialEq, Eq, Structural)]
pub enum MessageType {
    Hello,
    Okay,
    Bye,
    StartPlaying,
    StopPlaying,
    AudioHeader,
    Data,
}

/// A protocol message with its payload.
#[derive(Debug, PartialEq)]
pub enum Message {
    Hello,
    Okay,
    Bye,
    StartPlaying,
    StopPlaying,
    AudioHeader(AudioHeader),
    Data(Vec<u8>),
}

/// The mathematical value of a [`Message`]: payload bytes as a sequence.
pub enum MessageView {
    Hello,
    Okay,
    Bye,
    StartPlaying,
    StopPlaying,
    AudioHeader(AudioHeader),
    Data(Seq<u8>),
}

impl View for Message {
    type V = MessageView;

    open spec fn view(&self) -> MessageView {
        match self {
            Message::Hello => MessageView::Hello,
            Message::Okay => MessageView::Okay,
            Message::Bye => MessageView::Bye,
            Message::StartPlaying => MessageView::StartPlaying,
            Message::StopPlaying => MessageView::StopPlaying,
            Message::AudioHeader(f) => MessageView::AudioHeader(*f),
            Message::Data(d) => MessageView::Data(d@),
        }
    }
}

/// Why a byte string failed to decode: more bytes are needed, or the
/// stream is corrupt and the session must end.
#[derive(Clone, Copy, Debug, PartialEq, Eq, Structural)]
pub enum DecodeError {
    Truncated,
    Malformed,
}

/// The wire code of a message's type.
pub open spec fn spec_code(m: MessageView) -> u8 {
    match m {
        MessageView::Hello => CODE_HELLO,
        MessageView::Okay => CODE_OK,
        MessageView::Bye => CODE_BYE,
        MessageView::StartPlaying => CODE_START_PLAYING,
        MessageView::StopPlaying => CODE_STOP_PLAYING,
        MessageView::AudioHeader(_) => CODE_AUDIO_HEADER,
        MessageView::Data(_) => CODE_DATA,
    }
}

/// The wire code of a sample kind.
pub open spec fn spec_kind_code(k: SampleFormat) -> u8 {
    match k {
        SampleFormat::Int => 0,
        SampleFormat::Float => 1,
    }
}

/// The format carried in a message's header fields: the negotiated
/// format for `AudioHeader`, all zero for every other type.
pub open spec fn spec_format_fields(m: MessageView) -> AudioHeader {
    match m {
        MessageView::AudioHeader(f) => f,
        _ => AudioHeader {
            sample_rate: 0,
            channels: 0,
            bits_per_sample: 0,
            sample_format: SampleFormat::Int,
        },
    }
}

/// The payload that follows a message's header: the raw audio bytes of a
/// `Data` message, empty for every other type.
pub open spec fn spec_payload(m: MessageView) -> Seq<u8> {
    match m {
        MessageView::Data(d) => d,
        _ => Seq::empty(),
    }
}

/// A message the codec can place on the wire: an announced format lies in
/// the supported matrix, and a data payload fits the 16-bit size field.
pub open spec fn spec_valid_message(m: MessageView) -> bool {
    match m {
        MessageView::AudioHeader(f) => f.spec_valid(),
        MessageView::Data(d) => d.len() <= MAX_PAYLOAD,
        _ => true,
    }
}

/// The exact bytes a message occupies on the wire.
pub open spec fn spec_encode(m: MessageView) -> Seq<u8> {
    spec_u16_to_le_bytes(PROTOCOL_MAGIC) + seq![PROTOCOL_VERSION, spec_code(m)]
        + spec_u16_to_le_bytes(spec_payload(m).len() as u16)
        + spec_u32_to_le_bytes(spec_format_fields(m).sample_rate)
        + seq![
        spec_format_fields(m).channels,
        spec_format_fields(m).bits_per_sample,
        spec_kind_code(spec_format_fields(m).sample_format),
    ] + spec_payload(m)
}

/// The control message a header-only type code stands for.
/// Meaningful for codes `CODE_HELLO` through `CODE_STOP_PLAYING` only.
pub open spec fn spec_control_message(t: u8) -> MessageView {
    if t == CODE_HELLO {
        MessageView::Hello
    } else if t == CODE_OK {
        MessageView::Okay
    } else if t == CODE_BYE {
        MessageView::Bye
    } else if t == CODE_START_PLAYING {
        MessageView::StartPlaying
    } else {
        MessageView::StopPlaying
    }
}

/// What decoding a byte string yields: the first message it holds and the
/// number of bytes that message occupies, or the reason it holds none.
/// Checks run left to right, so corruption is reported as soon as the
/// bytes seen so far cannot begin any valid message, and `Truncated` is
/// reported only while every byte so far is consistent with a message
/// still arriving.
pub open spec fn spec_decode(s: Seq<u8>) -> Result<(MessageView, int), DecodeError> {
    if s.len() >= 2 && spec_u16_from_le_bytes(s.subrange(0, 2)) != PROTOCOL_MAGIC {
        Err(DecodeError::Malformed)
    } else if s.len() >= 3 && s[2] != PROTOCOL_VERSION {
        Err(DecodeError::Malformed)
    } else if s.len() >= 4 && s[3] > CODE_DATA {
        Err(DecodeError::Malformed)
    } else if s.len() < HEADER_LEN {
        Err(DecodeError::Truncated)
    } else {
        let t = s[3];
        let psize = spec_u16_from_le_bytes(s.subrange(4, 6)) as int;
        if t == CODE_DATA {
            if s.len() < HEADER_LEN + psize {
                Err(DecodeError::Truncated)
            } else {
                Ok((MessageView::Data(s.subrange(HEADER_LEN as int, HEADER_LEN + psize)), HEADER_LEN + psize))
            }
        } else if t == CODE_AUDIO_HEADER {
            let f = AudioHeader {
                sample_rate: spec_u32_from_le_bytes(s.subrange(6, 10)),
                channels: s[10],
                bits_per_sample: s[11],
                sample_format: if s[12] == 0 { SampleFormat::Int } else { SampleFormat::Float },
            };
            if s[12] > 1 || !f.spec_valid() {
                Err(DecodeError::Malformed)
            } else {
                Ok((MessageView::AudioHeader(f), HEADER_LEN as int))
            }
        } else {
            Ok((spec_control_message(t), HEADER_LEN as int))
        }
    }
}

/// Serialize a message.  Pure; never fails for a well-formed message.
pub fn encode(m: &Message) -> (r: Vec<u8>)
    requires
        spec_payload(m@).len() <= MAX_PAYLOAD,
    ensures
        r@ == spec_encode(m@),
{
    let code: u8 = match m {
        Message::Hello => CODE_HELLO,
        Message::Okay => CODE_OK,
        Message::Bye => CODE_BYE,
        Message::StartPlaying => CODE_START_PLAYING,
        Message::StopPlaying => CODE_STOP_PLAYING,
        Message::AudioHeader(_) => CODE_AUDIO_HEADER,
        Message::Data(_) => CODE_DATA,
    };
    let fmt: AudioHeader = match m {
        Message::AudioHeader(f) => *f,
        _ => AudioHeader::new(),
    };
    let psize: u16 = match m {
        Message::Data(d) => d.len() as u16,
        _ => 0u16,
    };
    let mut out = u16_to_le_bytes(PROTOCOL_MAGIC);
    out.push(PROTOCOL_VERSION);
    out.push(code);
    let mut ps = u16_to_le_bytes(psize);
    out.append(&mut ps);
    let mut rate = u32_to_le_bytes(fmt.sample_rate);
    out.append(&mut rate);
    out.push(fmt.channels);
    out.push(fmt.bits_per_sample);
    out.push(match fmt.sample_format {
        SampleFormat::Int => 0u8,
        SampleFormat::Float => 1u8,
    });
    if let Message::Data(d) = m {
        let ghost hdr = out@;
        let mut i: usize = 0;
        while i < d.len()
            invariant
                i <= d.len(),
                out@ == hdr + d@.take(i as int),
            decreases d.len() - i,
        {
            out.push(d[i]);
            assert(out@ == hdr + d@.take(i as int + 1)) by {
                assert_seqs_equal!(hdr + d@.take(i as int) + seq![d@[i as int]] == hdr + d@.take(i as int + 1));
            }
            i += 1;
        }
        assert(d@.take(d@.len() as int) == d@);
    }
    assert(out@ == spec_encode(m@)) by {
        assert_seqs_equal!(out@ == spec_encode(m@));
    }
    out
}

/// Decode the first message held in `data`.  Pure and side-effect free,
/// so a caller can retry on the same growing buffer: `Truncated` means
/// feed more bytes and try again, `Malformed` means the stream is corrupt.
pub fn decode(data: &[u8]) -> (r: Result<(Message, usize), DecodeError>)
    ensures
        match r {
            Ok(p) => spec_decode(data@) == Ok::<(MessageView, int), DecodeError>((p.0@, p.1 as int)),
            Err(e) => spec_decode(data@) == Err::<(MessageView, int), DecodeError>(e),
        },
{
    if data.len() >= 2 {
        let magic = u16_from_le_bytes(slice_subrange(data, 0, 2));
        if magic != PROTOCOL_MAGIC {
            return Err(DecodeError::Malformed);
        }
    }
    if data.len() >= 3 && *slice_index_get(data, 2) != PROTOCOL_VERSION {
        return Err(DecodeError::Malformed);
    }
    if data.len() >= 4 && *slice_index_get(data, 3) > CODE_DATA {
        return Err(DecodeError::Malformed);
    }
    if data.len() < HEADER_LEN {
        return Err(DecodeError::Truncated);
    }
    let t = *slice_index_get(data, 3);
    let psize = u16_from_le_bytes(slice_subrange(data, 4, 6)) as usize;
    if t == CODE_DATA {
        if data.len() < HEADER_LEN + psize {
            Err(DecodeError::Truncated)
        } else {
            let payload = slice_to_vec(slice_subrange(data, HEADER_LEN, HEADER_LEN + psize));
            Ok((Message::Data(payload), HEADER_LEN + psize))
        }
    } else if t == CODE_AUDIO_HEADER {
        let kind = *slice_index_get(data, 12);
        let f = AudioHeader {
            sample_rate: u32_from_le_bytes(slice_subrange(data, 6, 10)),
            channels: *slice_index_get(data, 10),
            bits_per_sample: *slice_index_get(data, 11),
            sample_format: if kind == 0 { SampleFormat::Int } else { SampleFormat::Float },
        };
        if kind > 1 || !f.is_valid() {
            Err(DecodeError::Malformed)
        } else {
            Ok((Message::AudioHeader(f), HEADER_LEN))
        }
    } else if t == CODE_HELLO {
        Ok((Message::Hello, HEADER_LEN))
    } else if t == CODE_OK {
        Ok((Message::Okay, HEADER_LEN))
    } else if t == CODE_BYE {
        Ok((Message::Bye, HEADER_LEN))
    } else if t == CODE_START_PLAYING {
        Ok((Message::StartPlaying, HEADER_LEN))
    } else {
        Ok((Message::StopPlaying, HEADER_LEN))
    }
}

/// Version information a peer announces during the handshake.  The
/// header of every message carries the version byte, so this is what a
/// successfully decoded `Hello` vouches for.
#[derive(Clone, Copy, Debug, PartialEq, Eq, Structural)]
pub struct ProtocolInfo {
    pub version: u8,
}

impl ProtocolInfo {
    pub fn new() -> (r: Self)
        ensures
            r.version == PROTOCOL_VERSION,
    {
        Self { version: PROTOCOL_VERSION }
    }
}

/// The type tag of a message.
pub open spec fn spec_message_type(m: MessageView) -> MessageType {
    match m {
        MessageView::Hello => MessageType::Hello,
        MessageView::Okay => MessageType::Okay,
        MessageView::Bye => MessageType::Bye,
        MessageView::StartPlaying => MessageType::StartPlaying,
        MessageView::StopPlaying => MessageType::StopPlaying,
        MessageView::AudioHeader(_) => MessageType::AudioHeader,
        MessageView::Data(_) => MessageType::Data,
    }
}

impl Message {
    /// The type tag of this message.
    pub fn message_type(&self) -> (t: MessageType)
        ensures
            t == spec_message_type(self@),
    {
        match self {
            Message::Hello => MessageType::Hello,
            Message::Okay => MessageType::Okay,
            Message::Bye => MessageType::Bye,
            Message::StartPlaying => MessageType::StartPlaying,
            Message::StopPlaying => MessageType::StopPlaying,
            Message::AudioHeader(_) => MessageType::AudioHeader,
            Message::Data(_) => MessageType::Data,
        }
    }
}

/// True exactly when `s` is one whole message of the given type and
/// nothing more.
pub open spec fn spec_is_exactly(s: Seq<u8>, m: MessageView) -> bool {
    spec_decode(s) == Ok::<(MessageView, int), DecodeError>((m, s.len() as int))
}

/// The bytes a client opens the handshake with.
pub fn make_client_hello_message() -> (r: Vec<u8>)
    ensures
        r@ == spec_encode(MessageView::Hello),
{
    encode(&Message::Hello)
}

/// Byte length of an encoded `Hello` (a bare header).
pub fn get_hello_message_size() -> (r: usize)
    ensures
        r == spec_encode(MessageView::Hello).len(),
{
    proof {
        lemma_encode_shape(MessageView::Hello);
    }
    HEADER_LEN
}

/// True exactly when `data` is one whole, well-formed `Hello` — in
/// particular, a hello bearing the wrong magic number is refused.
pub fn check_client_hello_message(data: &[u8]) -> (r: bool)
    ensures
        r == spec_is_exactly(data@, MessageView::Hello),
{
    match decode(data) {
        Ok((Message::Hello, n)) => n == data.len(),
        _ => false,
    }
}

/// The bytes a server answers a hello with.  The self-describing header
/// already carries the server's protocol version.
pub fn make_server_hello_message() -> (r: Vec<u8>)
    ensures
        r@ == spec_encode(MessageView::Hello),
{
    encode(&Message::Hello)
}

/// The protocol information vouched for by a peer's `Hello`, if `data`
/// decodes to one.  Decoding already refuses a foreign version byte, so
/// a successful extraction always reports this crate's version.
pub fn extract_protocol_info(data: &[u8]) -> (r: Option<ProtocolInfo>)
    ensures
        match r {
            Some(pi) => (spec_decode(data@) matches Ok(p) && p.0 is Hello) && pi.version
                == PROTOCOL_VERSION,
            None => !(spec_decode(data@) matches Ok(p) && p.0 is Hello),
        },
{
    match decode(data) {
        Ok((Message::Hello, _)) => Some(ProtocolInfo::new()),
        _ => None,
    }
}

pub fn make_ok_message() -> (r: Vec<u8>)
    ensures
        r@ == spec_encode(MessageView::Okay),
{
    encode(&Message::Okay)
}

pub fn make_start_playing_message() -> (r: Vec<u8>)
    ensures
        r@ == spec_encode(MessageView::StartPlaying),
{
    encode(&Message::StartPlaying)
}

pub fn make_stop_playing_message() -> (r: Vec<u8>)
    ensures
        r@ == spec_encode(MessageView::StopPlaying),
{
    encode(&Message::StopPlaying)
}

pub fn make_bye_message() -> (r: Vec<u8>)
    ensures
        r@ == spec_encode(MessageView::Bye),
{
    encode(&Message::Bye)
}

/// The type of the first message in `data`, if one decodes.
pub fn extract_message_type(data: &[u8]) -> (r: Option<MessageType>)
    ensures
        match r {
            Some(t) => spec_decode(data@) matches Ok(p) && t == spec_message_type(p.0),
            None => spec_decode(data@) is Err,
        },
{
    match decode(data) {
        Ok((m, _)) => Some(m.message_type()),
        Err(_) => None,
    }
}

/// The format announced by the first message in `data`, if that message
/// is an `AudioHeader`.  A decoded format always lies in the supported
/// matrix.
pub fn extract_wav_header(data: &[u8]) -> (r: Option<AudioHeader>)
    ensures
        match r {
            Some(f) => (spec_decode(data@) matches Ok(p) && p.0 == MessageView::AudioHeader(f))
                && f.spec_valid(),
            None => !(spec_decode(data@) matches Ok(p) && p.0 is AudioHeader),
        },
{
    match decode(data) {
        Ok((Message::AudioHeader(f), _)) => {
            proof {
                assert(spec_decode(data@) matches Ok(p) && p.0 == MessageView::AudioHeader(f));
            }
            Some(f)
        },
        _ => None,
    }
}

/// The bytes that announce an audio format.
pub fn audio_header_to_bytes(header: &AudioHeader) -> (r: Vec<u8>)
    ensures
        r@ == spec_encode(MessageView::AudioHeader(*header)),
{
    encode(&Message::AudioHeader(*header))
}

/// True exactly when `data` is one whole `Ok` message.
pub fn check_ok_message(data: &[u8]) -> (r: bool)
    ensures
        r == spec_is_exactly(data@, MessageView::Okay),
{
    match decode(data) {
        Ok((Message::Okay, n)) => n == data.len(),
        _ => false,
    }
}

/// True exactly when `data` is one whole `Bye` message.
pub fn check_bye_message(data: &[u8]) -> (r: bool)
    ensures
        r == spec_is_exactly(data@, MessageView::Bye),
{
    match decode(data) {
        Ok((Message::Bye, n)) => n == data.len(),
        _ => false,
    }
}

/// True exactly when `data` is one whole `StopPlaying` message.
pub fn is_stop_playing_message(data: &[u8]) -> (r: bool)
    ensures
        r == spec_is_exactly(data@, MessageView::StopPlaying),
{
    match decode(data) {
        Ok((Message::StopPlaying, n)) => n == data.len(),
        _ => false,
    }
}

/// The bytes that carry one chunk of raw audio data.
pub fn make_data_message(payload: &[u8]) -> (r: Vec<u8>)
    requires
        payload@.len() <= MAX_PAYLOAD,
    ensures
        r@ == spec_encode(MessageView::Data(payload@)),
{
    let v = slice_to_vec(payload);
    encode(&Message::Data(v))
}

/// Whatever decodes, the consumed count covers at least the header and
/// never exceeds the bytes at hand.
pub proof fn lemma_decode_consumed_bounds(s: Seq<u8>)
    ensures
        spec_decode(s) matches Ok(p) ==> HEADER_LEN <= p.1 <= s.len(),
{
}

/// The encoded bytes of a message, read off field by field.
proof fn lemma_encode_shape(m: MessageView)
    ensures
        spec_encode(m).len() == HEADER_LEN + spec_payload(m).len(),
        spec_encode(m).subrange(0, 2) == spec_u16_to_le_bytes(PROTOCOL_MAGIC),
        spec_encode(m)[2] == PROTOCOL_VERSION,
        spec_encode(m)[3] == spec_code(m),
        spec_encode(m).subrange(4, 6) == spec_u16_to_le_bytes(spec_payload(m).len() as u16),
        spec_encode(m).subrange(6, 10) == spec_u32_to_le_bytes(spec_format_fields(m).sample_rate),
        spec_encode(m)[10] == spec_format_fields(m).channels,
        spec_encode(m)[11] == spec_format_fields(m).bits_per_sample,
        spec_encode(m)[12] == spec_kind_code(spec_format_fields(m).sample_format),
        spec_encode(m).subrange(HEADER_LEN as int, spec_encode(m).len() as int) == spec_payload(m),
{
    lemma_auto_spec_u16_to_from_le_bytes();
    lemma_auto_spec_u32_to_from_le_bytes();
    let e = spec_encode(m);
    assert(e.len() == HEADER_LEN + spec_payload(m).len());
    assert_seqs_equal!(e.subrange(0, 2) == spec_u16_to_le_bytes(PROTOCOL_MAGIC));
    assert_seqs_equal!(e.subrange(4, 6) == spec_u16_to_le_bytes(spec_payload(m).len() as u16));
    assert_seqs_equal!(e.subrange(6, 10) == spec_u32_to_le_bytes(spec_format_fields(m).sample_rate));
    assert_seqs_equal!(e.subrange(HEADER_LEN as int, e.len() as int) == spec_payload(m));
}

/// Framing: decoding starts over wherever a message ends.  The first
/// message of `spec_encode(m) + rest` is exactly `m`, whatever follows,
/// so concatenated encodings are recovered one by one, in order.
pub proof fn lemma_decode_encode_prefix(m: MessageView, rest: Seq<u8>)
    requires
        spec_valid_message(m),
    ensures
        spec_decode(spec_encode(m) + rest) == Ok::<(MessageView, int), DecodeError>(
            (m, spec_encode(m).len() as int),
        ),
{
    lemma_encode_shape(m);
    lemma_auto_spec_u16_to_from_le_bytes();
    lemma_auto_spec_u32_to_from_le_bytes();
    let e = spec_encode(m);
    let s = e + rest;
    assert_seqs_equal!(s.subrange(0, 2) == e.subrange(0, 2));
    assert(s[2] == e[2]);
    assert(s[3] == e[3]);
    assert_seqs_equal!(s.subrange(4, 6) == e.subrange(4, 6));
    assert(spec_u16_from_le_bytes(s.subrange(4, 6)) == spec_payload(m).len() as u16);
    match m {
        MessageView::Data(d) => {
            assert(spec_u16_from_le_bytes(s.subrange(4, 6)) as int == d.len());
            assert_seqs_equal!(s.subrange(HEADER_LEN as int, HEADER_LEN + d.len() as int) ==
                e.subrange(HEADER_LEN as int, HEADER_LEN + d.len() as int));
            assert(spec_decode(s) == Ok::<(MessageView, int), DecodeError>((m, e.len() as int)));
        }
        MessageView::AudioHeader(f) => {
            assert_seqs_equal!(s.subrange(6, 10) == e.subrange(6, 10));
            assert(s[10] == e[10]);
            assert(s[11] == e[11]);
            assert(s[12] == e[12]);
            assert(spec_u32_from_le_bytes(s.subrange(6, 10)) == f.sample_rate);
            assert(spec_decode(s) == Ok::<(MessageView, int), DecodeError>((m, e.len() as int)));
        }
        _ => {
            assert(spec_control_message(spec_code(m)) == m);
            assert(spec_decode(s) == Ok::<(MessageView, int), DecodeError>((m, e.len() as int)));
        }
    }
}

/// Round trip: a well-formed message decodes back to itself, consuming
/// exactly its own encoding.  With an `AudioHeader` message this is the
/// format round trip: every format in the supported matrix survives
/// encoding and decoding unchanged.
pub proof fn lemma_decode_encode(m: MessageView)
    requires
        spec_valid_message(m),
    ensures
        spec_decode(spec_encode(m)) == Ok::<(MessageView, int), DecodeError>(
            (m, spec_encode(m).len() as int),
        ),
{
    lemma_decode_encode_prefix(m, Seq::empty());
    assert_seqs_equal!(spec_encode(m) + Seq::<u8>::empty() == spec_encode(m));
}

/// Format round trip: every format in the supported matrix survives
/// its announcement on the wire unchanged.
pub proof fn lemma_format_round_trip(f: AudioHeader)
    requires
        f.spec_valid(),
    ensures
        spec_decode(spec_encode(MessageView::AudioHeader(f))) == Ok::<
            (MessageView, int),
            DecodeError,
        >((MessageView::AudioHeader(f), HEADER_LEN as int)),
{
    lemma_decode_encode(MessageView::AudioHeader(f));
    lemma_encode_shape(MessageView::AudioHeader(f));
}

/// Truncation: every strict prefix of a valid encoded message decodes to
/// `Truncated` — never to a spurious message and never to `Malformed`.
pub proof fn lemma_decode_truncated(m: MessageView, i: int)
    requires
        spec_valid_message(m),
        0 <= i < spec_encode(m).len(),
    ensures
        spec_decode(spec_encode(m).take(i)) == Err::<(MessageView, int), DecodeError>(
            DecodeError::Truncated,
        ),
{
    lemma_encode_shape(m);
    lemma_auto_spec_u16_to_from_le_bytes();
    let e = spec_encode(m);
    let s = e.take(i);
    assert(s.len() == i);
    if i >= 2 {
        assert_seqs_equal!(s.subrange(0, 2) == e.subrange(0, 2));
    }
    if i < HEADER_LEN {
        assert(spec_decode(s) == Err::<(MessageView, int), DecodeError>(DecodeError::Truncated));
    } else {
        assert(spec_payload(m).len() > 0);
        assert(m is Data);
        assert(s[2] == e[2]);
        assert(s[3] == e[3]);
        assert_seqs_equal!(s.subrange(4, 6) == e.subrange(4, 6));
        assert(spec_u16_from_le_bytes(s.subrange(4, 6)) as int == spec_payload(m).len());
        assert(s.len() < HEADER_LEN + spec_payload(m).len());
        assert(spec_decode(s) == Err::<(MessageView, int), DecodeError>(DecodeError::Truncated));
    }
}

/// A stream whose first two bytes are not the protocol magic never
/// yields a message: the peer is refused at once as corrupt.
pub proof fn lemma_wrong_magic_refused(s: Seq<u8>)
    requires
        s.len() >= 2,
        spec_u16_from_le_bytes(s.subrange(0, 2)) != PROTOCOL_MAGIC,
    ensures
        spec_decode(s) == Err::<(MessageView, int), DecodeError>(DecodeError::Malformed),
{
}

/// The bytes of a whole sequence of messages, laid end to end.
pub open spec fn spec_encode_all(ms: Seq<MessageView>) -> Seq<u8>
    decreases ms.len(),
{
    if ms.len() == 0 {
        Seq::empty()
    } else {
        spec_encode(ms[0]) + spec_encode_all(ms.skip(1))
    }
}

/// Repeatedly decode a byte stream to the messages it holds; `None` if
/// the stream does not consist of exactly whole messages.
pub open spec fn spec_decode_all(s: Seq<u8>) -> Option<Seq<MessageView>>
    decreases s.len(),
{
    if s.len() == 0 {
        Some(Seq::empty())
    } else {
        match spec_decode(s) {
            Ok(p) => {
                if 0 < p.1 <= s.len() {
                    match spec_decode_all(s.skip(p.1)) {
                        Some(tail) => Some(seq![p.0] + tail),
                        None => None,
                    }
                } else {
                    None
                }
            },
            Err(_) => None,
        }
    }
}

/// Framing over a whole stream: the concatenation of the encodings of
/// `m1, m2, …` decodes back to exactly `[m1, m2, …]`, in order.  The
/// decoder acts on an accumulated buffer, so this holds however the
/// bytes were chunked across reads.
pub proof fn lemma_decode_all_encode_all(ms: Seq<MessageView>)
    requires
        forall|i: int| 0 <= i < ms.len() ==> spec_valid_message(#[trigger] ms[i]),
    ensures
        spec_decode_all(spec_encode_all(ms)) == Some(ms),
    decreases ms.len(),
{
    if ms.len() == 0 {
        assert(spec_encode_all(ms).len() == 0);
        assert(spec_decode_all(spec_encode_all(ms)) == Some(Seq::<MessageView>::empty()));
        assert_seqs_equal!(Seq::<MessageView>::empty() == ms);
    } else {
        let m = ms[0];
        let e = spec_encode(m);
        let rest = spec_encode_all(ms.skip(1));
        let s = e + rest;
        lemma_encode_shape(m);
        lemma_decode_encode_prefix(m, rest);
        assert(spec_encode_all(ms) == s);
        assert(s.len() >= e.len());
        assert_seqs_equal!(s.skip(e.len() as int) == rest);
        lemma_decode_all_encode_all(ms.skip(1));
        assert(spec_decode_all(s) == Some(seq![m] + ms.skip(1)));
        assert_seqs_equal!(seq![m] + ms.skip(1) == ms);
    }
}

} // verus!
