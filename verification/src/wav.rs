//! The WAV container codec: between a PCM WAV file (as bytes) and the
//! raw little-endian sample stream used on the wire.
//!
//! Exactly the negotiated matrix is supported: 16- and 32-bit signed
//! integer PCM and 32-bit IEEE float (floats are carried as their bit
//! patterns; nothing here computes with them).  The writer produces a
//! canonical 44-byte header followed by the sample data; the reader
//! accepts that layout and, more generally, any RIFF/WAVE file whose
//! chunks it can walk: a `fmt ` chunk of the plain or extensible kind
//! followed by a `data` chunk, with unknown chunks skipped.
//!
//! The byte-oriented reading and writing of a named file is left to the
//! unverified shell; this module only ever sees byte strings.

use vstd::prelude::*;
use vstd::bytes::*;
use vstd::slice::*;
use vstd::assert_seqs_equal;

use crate::error::AudioError;
use crate::format::AudioHeader;
use crate::format::SampleFormat;

verus! {

/// "RIFF"
pub open spec fn riff_tag() -> Seq<u8> {
    seq![0x52u8, 0x49u8, 0x46u8, 0x46u8]
}

/// "WAVE"
pub open spec fn wave_tag() -> Seq<u8> {
    seq![0x57u8, 0x41u8, 0x56u8, 0x45u8]
}

/// "fmt "
pub open spec fn fmt_tag() -> Seq<u8> {
    seq![0x66u8, 0x6du8, 0x74u8, 0x20u8]
}

/// "data"
pub open spec fn data_tag() -> Seq<u8> {
    seq![0x64u8, 0x61u8, 0x74u8, 0x61u8]
}

/// The fmt-chunk format tag: 1 for integer PCM, 3 for IEEE float.
pub open spec fn spec_format_tag(f: AudioHeader) -> u16 {
    match f.sample_format {
        SampleFormat::Int => 1,
        SampleFormat::Float => 3,
    }
}

/// A format this codec can put in a WAV header: inside the supported
/// matrix, at least one channel, and a byte rate that fits the header's
/// 32-bit field.
pub open spec fn spec_wav_writable(f: AudioHeader) -> bool {
    &&& f.spec_valid()
    &&& f.channels >= 1
    &&& f.sample_rate as nat * f.spec_frame_size() <= 0xFFFFFFFF
}

/// The canonical 24-byte `fmt ` chunk (header plus 16-byte body).
pub open spec fn spec_fmt_chunk(f: AudioHeader) -> Seq<u8> {
    fmt_tag() + spec_u32_to_le_bytes(16) + spec_u16_to_le_bytes(spec_format_tag(f))
        + spec_u16_to_le_bytes(f.channels as u16) + spec_u32_to_le_bytes(f.sample_rate)
        + spec_u32_to_le_bytes((f.sample_rate as nat * f.spec_frame_size()) as u32)
        + spec_u16_to_le_bytes(f.spec_frame_size() as u16)
        + spec_u16_to_le_bytes(f.bits_per_sample as u16)
}

/// The whole canonical WAV file for a format and its sample data: a
/// 44-byte header followed by the data bytes.
pub open spec fn spec_wav_bytes(f: AudioHeader, data: Seq<u8>) -> Seq<u8> {
    riff_tag() + spec_u32_to_le_bytes((36 + data.len()) as u32) + wave_tag() + spec_fmt_chunk(f)
        + data_tag() + spec_u32_to_le_bytes(data.len() as u32) + data
}

/// Read a format out of a `fmt ` chunk body at `pos` of length `size`.
/// Both the plain layout (tag 1 or 3) and the extensible layout
/// (tag 0xFFFE, real tag leading the sub-format identifier at offset 24)
/// are accepted; anything outside the supported matrix is refused.
pub open spec fn spec_parse_fmt_fields(s: Seq<u8>, pos: int, size: int) -> Option<AudioHeader> {
    let tag0 = spec_u16_from_le_bytes(s.subrange(pos, pos + 2));
    let ch = spec_u16_from_le_bytes(s.subrange(pos + 2, pos + 4));
    let rate = spec_u32_from_le_bytes(s.subrange(pos + 4, pos + 8));
    let bits = spec_u16_from_le_bytes(s.subrange(pos + 14, pos + 16));
    let tag = if tag0 == 0xFFFE {
        if size >= 40 {
            spec_u16_from_le_bytes(s.subrange(pos + 24, pos + 26))
        } else {
            0
        }
    } else {
        tag0
    };
    if 1 <= ch <= 255 && ((tag == 1 && (bits == 16 || bits == 32)) || (tag == 3 && bits == 32)) {
        Some(
            AudioHeader {
                sample_rate: rate,
                channels: ch as u8,
                bits_per_sample: bits as u8,
                sample_format: if tag == 3 {
                    SampleFormat::Float
                } else {
                    SampleFormat::Int
                },
            },
        )
    } else {
        None
    }
}

/// Walk the chunks of a RIFF body from `pos`: remember the format once a
/// `fmt ` chunk appears, skip unknown chunks (with their pad byte), and
/// finish at the `data` chunk.
pub open spec fn spec_scan_chunks(s: Seq<u8>, pos: int, fmt: Option<AudioHeader>) -> Option<
    (AudioHeader, Seq<u8>),
>
    decreases s.len() - pos,
{
    if pos < 0 || pos + 8 > s.len() {
        None
    } else {
        let id = s.subrange(pos, pos + 4);
        let size = spec_u32_from_le_bytes(s.subrange(pos + 4, pos + 8)) as int;
        let body = pos + 8;
        let next = body + size + (size % 2);
        if id == data_tag() {
            if body + size > s.len() {
                None
            } else {
                match fmt {
                    Some(f) => Some((f, s.subrange(body, body + size))),
                    None => None,
                }
            }
        } else if id == fmt_tag() {
            if size < 16 || body + size > s.len() || next > s.len() {
                None
            } else {
                match spec_parse_fmt_fields(s, body, size) {
                    Some(f) => spec_scan_chunks(s, next, Some(f)),
                    None => None,
                }
            }
        } else {
            if body + size > s.len() || next > s.len() {
                None
            } else {
                spec_scan_chunks(s, next, fmt)
            }
        }
    }
}

/// What a WAV byte string means: the declared format and the raw sample
/// data, or nothing if the bytes are not a WAV file this codec accepts.
pub open spec fn spec_parse_wav(s: Seq<u8>) -> Option<(AudioHeader, Seq<u8>)> {
    if s.len() < 12 {
        None
    } else if s.subrange(0, 4) != riff_tag() || s.subrange(8, 12) != wave_tag() {
        None
    } else {
        spec_scan_chunks(s, 12, None)
    }
}

/// Compare four bytes of `data` at `pos` against a four-byte tag.
fn tag_matches(data: &[u8], pos: usize, t0: u8, t1: u8, t2: u8, t3: u8) -> (r: bool)
    requires
        pos + 4 <= data@.len(),
    ensures
        r == (data@.subrange(pos as int, pos as int + 4) == seq![t0, t1, t2, t3]),
{
    let n = data.len();
    assert(pos + 4 <= n);
    let r = *slice_index_get(data, pos) == t0 && *slice_index_get(data, pos + 1) == t1
        && *slice_index_get(data, pos + 2) == t2 && *slice_index_get(data, pos + 3) == t3;
    proof {
        let sub = data@.subrange(pos as int, pos as int + 4);
        if r {
            assert_seqs_equal!(sub == seq![t0, t1, t2, t3]);
        } else {
            if sub == seq![t0, t1, t2, t3] {
                assert(sub[0] == t0);
                assert(sub[1] == t1);
                assert(sub[2] == t2);
                assert(sub[3] == t3);
            }
        }
    }
    r
}

/// Little-endian `u16` at `pos`.
fn read_u16_at(data: &[u8], pos: usize) -> (r: u16)
    requires
        pos + 2 <= data@.len(),
    ensures
        r == spec_u16_from_le_bytes(data@.subrange(pos as int, pos as int + 2)),
{
    let n = data.len();
    assert(pos + 2 <= n);
    u16_from_le_bytes(slice_subrange(data, pos, pos + 2))
}

/// Little-endian `u32` at `pos`.
fn read_u32_at(data: &[u8], pos: usize) -> (r: u32)
    requires
        pos + 4 <= data@.len(),
    ensures
        r == spec_u32_from_le_bytes(data@.subrange(pos as int, pos as int + 4)),
{
    let n = data.len();
    assert(pos + 4 <= n);
    u32_from_le_bytes(slice_subrange(data, pos, pos + 4))
}

/// Decode a WAV file.  Returns the declared format — always inside the
/// supported matrix — and the raw sample data.
pub fn parse_wav(data: &[u8]) -> (r: Result<(AudioHeader, Vec<u8>), AudioError>)
    ensures
        match r {
            Ok(p) => spec_parse_wav(data@) == Some((p.0, p.1@)),
            Err(e) => e == AudioError::MalformedWav && spec_parse_wav(data@) is None,
        },
{
    if data.len() < 12 {
        return Err(AudioError::MalformedWav);
    }
    if !tag_matches(data, 0, 0x52, 0x49, 0x46, 0x46) {
        return Err(AudioError::MalformedWav);
    }
    if !tag_matches(data, 8, 0x57, 0x41, 0x56, 0x45) {
        return Err(AudioError::MalformedWav);
    }
    let mut pos: usize = 12;
    let mut fmt: Option<AudioHeader> = None;
    loop
        invariant
            12 <= pos <= data@.len(),
            data@.len() >= 12,
            spec_parse_wav(data@) == spec_scan_chunks(data@, pos as int, fmt),
        decreases data@.len() - pos,
    {
        if pos > data.len() - 8 {
            return Err(AudioError::MalformedWav);
        }
        let size32 = read_u32_at(data, pos + 4);
        let size = size32 as usize;
        let body = pos + 8;
        if tag_matches(data, pos, 0x64, 0x61, 0x74, 0x61) {
            if size > data.len() - body {
                return Err(AudioError::MalformedWav);
            }
            match fmt {
                Some(f) => {
                    let payload = slice_to_vec(slice_subrange(data, body, body + size));
                    return Ok((f, payload));
                },
                None => {
                    return Err(AudioError::MalformedWav);
                },
            }
        } else if tag_matches(data, pos, 0x66, 0x6d, 0x74, 0x20) {
            if size < 16 || size > data.len() - body {
                return Err(AudioError::MalformedWav);
            }
            let pad: usize = size % 2;
            if pad == 1 && size == data.len() - body {
                return Err(AudioError::MalformedWav);
            }
            let tag0 = read_u16_at(data, body);
            let ch = read_u16_at(data, body + 2);
            let rate = read_u32_at(data, body + 4);
            let bits = read_u16_at(data, body + 14);
            let tag = if tag0 == 0xFFFE {
                if size >= 40 {
                    read_u16_at(data, body + 24)
                } else {
                    0
                }
            } else {
                tag0
            };
            if 1 <= ch && ch <= 255 && ((tag == 1 && (bits == 16 || bits == 32)) || (tag == 3
                && bits == 32)) {
                fmt = Some(
                    AudioHeader {
                        sample_rate: rate,
                        channels: ch as u8,
                        bits_per_sample: bits as u8,
                        sample_format: if tag == 3 {
                            SampleFormat::Float
                        } else {
                            SampleFormat::Int
                        },
                    },
                );
                pos = body + size + pad;
            } else {
                return Err(AudioError::MalformedWav);
            }
        } else {
            if size > data.len() - body {
                return Err(AudioError::MalformedWav);
            }
            let pad: usize = size % 2;
            if pad == 1 && size == data.len() - body {
                return Err(AudioError::MalformedWav);
            }
            pos = body + size + pad;
        }
    }
}

/// Build the canonical WAV file bytes for a format and its sample data.
pub fn build_wav_bytes(f: &AudioHeader, data: &Vec<u8>) -> (r: Vec<u8>)
    requires
        spec_wav_writable(*f),
        data@.len() + 36 <= 0xFFFFFFFF,
    ensures
        r@ == spec_wav_bytes(*f, data@),
{
    let mut out: Vec<u8> = Vec::new();
    out.push(0x52);
    out.push(0x49);
    out.push(0x46);
    out.push(0x46);
    let mut riff_size = u32_to_le_bytes((36 + data.len()) as u32);
    out.append(&mut riff_size);
    out.push(0x57);
    out.push(0x41);
    out.push(0x56);
    out.push(0x45);
    out.push(0x66);
    out.push(0x6d);
    out.push(0x74);
    out.push(0x20);
    let mut fmt_size = u32_to_le_bytes(16);
    out.append(&mut fmt_size);
    let tag: u16 = match f.sample_format {
        SampleFormat::Int => 1,
        SampleFormat::Float => 3,
    };
    let mut tag_b = u16_to_le_bytes(tag);
    out.append(&mut tag_b);
    let mut ch_b = u16_to_le_bytes(f.channels as u16);
    out.append(&mut ch_b);
    let mut rate_b = u32_to_le_bytes(f.sample_rate);
    out.append(&mut rate_b);
    let block = f.frame_size();
    let byte_rate_wide: u64 = (f.sample_rate as u64) * (block as u64);
    let mut byte_rate_b = u32_to_le_bytes(byte_rate_wide as u32);
    out.append(&mut byte_rate_b);
    let mut block_b = u16_to_le_bytes(block as u16);
    out.append(&mut block_b);
    let mut bits_b = u16_to_le_bytes(f.bits_per_sample as u16);
    out.append(&mut bits_b);
    out.push(0x64);
    out.push(0x61);
    out.push(0x74);
    out.push(0x61);
    let mut dlen_b = u32_to_le_bytes(data.len() as u32);
    out.append(&mut dlen_b);
    let ghost hdr = out@;
    let mut i: usize = 0;
    while i < data.len()
        invariant
            i <= data@.len(),
            out@ == hdr + data@.take(i as int),
        decreases data@.len() - i,
    {
        out.push(data[i]);
        proof {
            assert_seqs_equal!(hdr + data@.take(i as int) + seq![data@[i as int]]
                == hdr + data@.take(i as int + 1));
        }
        i += 1;
    }
    proof {
        assert(data@.take(data@.len() as int) == data@);
        assert_seqs_equal!(out@ == spec_wav_bytes(*f, data@));
    }
    out
}

/// WAV round trip: the canonical file written for a format and its
/// sample data parses back to exactly that format and that data.
pub proof fn lemma_wav_round_trip(f: AudioHeader, data: Seq<u8>)
    requires
        spec_wav_writable(f),
        data.len() + 36 <= 0xFFFFFFFF,
    ensures
        spec_parse_wav(spec_wav_bytes(f, data)) == Some((f, data)),
{
    lemma_auto_spec_u16_to_from_le_bytes();
    lemma_auto_spec_u32_to_from_le_bytes();
    let s = spec_wav_bytes(f, data);
    assert(s.len() == 44 + data.len());
    assert_seqs_equal!(s.subrange(0, 4) == riff_tag());
    assert_seqs_equal!(s.subrange(8, 12) == wave_tag());
    assert_seqs_equal!(s.subrange(12, 16) == fmt_tag());
    assert(fmt_tag() != data_tag()) by {
        if fmt_tag() == data_tag() {
            assert(fmt_tag()[0] == data_tag()[0]);
        }
    }
    assert_seqs_equal!(s.subrange(16, 20) == spec_u32_to_le_bytes(16));
    assert(spec_u32_from_le_bytes(s.subrange(16, 20)) == 16);
    assert_seqs_equal!(s.subrange(20, 22) == spec_u16_to_le_bytes(spec_format_tag(f)));
    assert_seqs_equal!(s.subrange(22, 24) == spec_u16_to_le_bytes(f.channels as u16));
    assert_seqs_equal!(s.subrange(24, 28) == spec_u32_to_le_bytes(f.sample_rate));
    assert_seqs_equal!(s.subrange(34, 36) == spec_u16_to_le_bytes(f.bits_per_sample as u16));
    assert(spec_parse_fmt_fields(s, 20, 16) == Some(f));
    assert_seqs_equal!(s.subrange(36, 40) == data_tag());
    assert_seqs_equal!(s.subrange(40, 44) == spec_u32_to_le_bytes(data.len() as u32));
    assert(spec_u32_from_le_bytes(s.subrange(40, 44)) as int == data.len());
    assert_seqs_equal!(s.subrange(44, 44 + data.len() as int) == data);
    assert(spec_scan_chunks(s, 36, Some(f)) == Some((f, data)));
    assert(spec_scan_chunks(s, 12, None) == Some((f, data)));
}

/// A format recovered by the parser always lies inside the supported
/// matrix and names at least one channel.
pub proof fn lemma_parse_wav_valid(s: Seq<u8>)
    ensures
        spec_parse_wav(s) matches Some(p) ==> p.0.spec_valid() && p.0.channels >= 1,
{
    if s.len() >= 12 && s.subrange(0, 4) == riff_tag() && s.subrange(8, 12) == wave_tag() {
        lemma_scan_chunks_valid(s, 12, None);
    }
}

/// Helper induction for `lemma_parse_wav_valid` over the chunk walk.
proof fn lemma_scan_chunks_valid(s: Seq<u8>, pos: int, fmt: Option<AudioHeader>)
    requires
        fmt matches Some(g) ==> g.spec_valid() && g.channels >= 1,
    ensures
        spec_scan_chunks(s, pos, fmt) matches Some(p) ==> p.0.spec_valid() && p.0.channels >= 1,
    decreases s.len() - pos,
{
    if !(pos < 0 || pos + 8 > s.len()) {
        let size = spec_u32_from_le_bytes(s.subrange(pos + 4, pos + 8)) as int;
        let body = pos + 8;
        let next = body + size + (size % 2);
        let id = s.subrange(pos, pos + 4);
        if id == data_tag() {
        } else if id == fmt_tag() {
            if !(size < 16 || body + size > s.len() || next > s.len()) {
                match spec_parse_fmt_fields(s, body, size) {
                    Some(g) => {
                        lemma_scan_chunks_valid(s, next, Some(g));
                    },
                    None => {},
                }
            }
        } else {
            if !(body + size > s.len() || next > s.len()) {
                lemma_scan_chunks_valid(s, next, fmt);
            }
        }
    }
}

/// The source half of the WAV codec: a parsed WAV file read out
/// chunkwise as raw little-endian sample bytes, whole samples at a time.
pub struct WavFileRead {
    format: Option<AudioHeader>,
    data: Vec<u8>,
    pos: usize,
}

/// The mathematical state of a [`WavFileRead`].
pub struct WavReadView {
    pub format: Option<AudioHeader>,
    pub data: Seq<u8>,
    pub pos: int,
}

impl WavReadView {
    /// The cursor stays inside the data and any parsed format lies in
    /// the supported matrix.
    pub open spec fn wf(self) -> bool {
        &&& 0 <= self.pos <= self.data.len()
        &&& (self.format matches Some(f) ==> f.spec_valid() && f.channels >= 1)
    }
}

impl View for WavFileRead {
    type V = WavReadView;

    closed spec fn view(&self) -> WavReadView {
        WavReadView { format: self.format, data: self.data@, pos: self.pos as int }
    }
}

/// How many bytes one `read` call hands out: as many whole samples as
/// fit the caller's budget and remain in the file — never a partial
/// sample.
pub open spec fn spec_read_amount(v: WavReadView, max: nat) -> nat {
    match v.format {
        None => 0,
        Some(f) => {
            let bps = f.spec_bytes_per_sample();
            let avail = (v.data.len() - v.pos) as nat;
            let take = if max < avail {
                max
            } else {
                avail
            };
            if bps == 0 {
                0
            } else {
                ((take / bps) * bps) as nat
            }
        },
    }
}

impl WavFileRead {
    pub fn new() -> (r: Self)
        ensures
            r@.format is None,
            r@.data == Seq::<u8>::empty(),
            r@.pos == 0,
            r@.wf(),
    {
        WavFileRead { format: None, data: Vec::new(), pos: 0 }
    }

    /// The format declared by the opened file, once one is open.
    pub fn format(&self) -> (r: Option<AudioHeader>)
        ensures
            r == self@.format,
    {
        self.format
    }

    /// Open a WAV file handed over as bytes.  A second open is refused,
    /// as is anything the parser does not accept.
    pub fn open_bytes(&mut self, bytes: &[u8]) -> (r: Result<(), AudioError>)
        ensures
            old(self)@.format is Some ==> r == Err::<(), AudioError>(AudioError::AlreadyOpen)
                && final(self)@ == old(self)@,
            old(self)@.format is None ==> match spec_parse_wav(bytes@) {
                Some(p) => r == Ok::<(), AudioError>(()) && final(self)@ == (WavReadView {
                    format: Some(p.0),
                    data: p.1,
                    pos: 0,
                }),
                None => r == Err::<(), AudioError>(AudioError::MalformedWav) && final(self)@ == old(self)@,
            },
            old(self)@.wf() ==> final(self)@.wf(),
    {
        if self.format.is_some() {
            return Err(AudioError::AlreadyOpen);
        }
        match parse_wav(bytes) {
            Ok((f, payload)) => {
                proof {
                    lemma_parse_wav_valid(bytes@);
                }
                self.format = Some(f);
                self.data = payload;
                self.pos = 0;
                Ok(())
            },
            Err(e) => Err(e),
        }
    }

    /// Read up to `max_len` bytes of whole samples from the cursor.  An
    /// empty result signals end of stream (or that nothing is open).
    pub fn read(&mut self, max_len: usize) -> (r: Vec<u8>)
        requires
            old(self)@.wf(),
        ensures
            r@ == old(self)@.data.subrange(
                old(self)@.pos,
                old(self)@.pos + spec_read_amount(old(self)@, max_len as nat),
            ),
            final(self)@.pos == old(self)@.pos + spec_read_amount(old(self)@, max_len as nat),
            final(self)@.format == old(self)@.format,
            final(self)@.data == old(self)@.data,
            final(self)@.wf(),
            old(self)@.format matches Some(f) ==> r@.len() as int % (f.spec_bytes_per_sample() as int)
                == 0,
    {
        let f = match &self.format {
            Some(f) => *f,
            None => {
                let r: Vec<u8> = Vec::new();
                proof {
                    assert_seqs_equal!(r@ == old(self)@.data.subrange(old(self)@.pos, old(self)@.pos));
                }
                return r;
            },
        };
        let bps = f.bytes_per_sample();
        let avail = self.data.len() - self.pos;
        let take = if max_len < avail {
            max_len
        } else {
            avail
        };
        proof {
            assert((take as int / bps as int) * bps as int <= take as int && ((take as int
                / bps as int) * bps as int) % (bps as int) == 0) by (nonlinear_arith)
                requires
                    bps > 0,
                    take >= 0,
            ;
        }
        let n = (take / bps) * bps;
        let out = slice_to_vec(slice_subrange(self.data.as_slice(), self.pos, self.pos + n));
        self.pos = self.pos + n;
        out
    }

    /// Copy the opened file's format into `header`; without an open file
    /// the header is left as it was.
    pub fn update_header(&mut self, header: &mut AudioHeader)
        ensures
            final(self)@ == old(self)@,
            old(self)@.format matches Some(f) ==> *final(header) == f,
            old(self)@.format is None ==> *final(header) == *old(header),
    {
        if let Some(f) = &self.format {
            *header = *f;
        }
    }
}

/// The sink half of the WAV codec: collects raw little-endian sample
/// bytes, whole samples at a time, and on finalization produces the
/// complete WAV file for the format it was given.  The physical file
/// cannot exist before the format is known, so the format arrives
/// lazily and writes beforehand are refused.
pub struct WavFileWrite {
    file_path: String,
    format: Option<AudioHeader>,
    data: Vec<u8>,
    finalized: bool,
    output: Option<Vec<u8>>,
}

/// The mathematical state of a [`WavFileWrite`].
pub struct WavWriteView {
    pub path: Seq<char>,
    pub format: Option<AudioHeader>,
    pub data: Seq<u8>,
    pub finalized: bool,
    pub output: Option<Seq<u8>>,
}

impl WavWriteView {
    /// Any accepted format is writable, the collected data is whole
    /// samples of it and fits a WAV header, and no data precedes the
    /// format.
    pub open spec fn wf(self) -> bool {
        &&& (self.format matches Some(f) ==> spec_wav_writable(f) && self.data.len() as int % (
        f.spec_bytes_per_sample() as int) == 0)
        &&& (self.format is None ==> self.data.len() == 0)
        &&& self.data.len() + 36 <= 0xFFFFFFFF
    }
}

impl View for WavFileWrite {
    type V = WavWriteView;

    closed spec fn view(&self) -> WavWriteView {
        WavWriteView {
            path: self.file_path@,
            format: self.format,
            data: self.data@,
            finalized: self.finalized,
            output: match self.output {
                Some(ref v) => Some(v@),
                None => None,
            },
        }
    }
}

impl WavFileWrite {
    pub fn new(file_path: String) -> (r: Self)
        ensures
            r@.path == file_path@,
            r@.format is None,
            r@.data == Seq::<u8>::empty(),
            !r@.finalized,
            r@.output is None,
            r@.wf(),
    {
        WavFileWrite { file_path, format: None, data: Vec::new(), finalized: false, output: None }
    }

    /// Where the shell should put the finished file.
    pub fn path(&self) -> (r: &String)
        ensures
            r@ == self@.path,
    {
        &self.file_path
    }

    /// Whether the sink has been finalized.
    pub fn is_finalized(&self) -> (r: bool)
        ensures
            r == self@.finalized,
    {
        self.finalized
    }

    /// Accept the format this file is to be written in.  The first
    /// format wins; later calls are a no-op, a format the container
    /// cannot express is refused, and a finalized sink accepts nothing.
    pub fn update_format(&mut self, header: &AudioHeader) -> (r: Result<(), AudioError>)
        ensures
            old(self)@.finalized ==> r == Err::<(), AudioError>(AudioError::Finalized) && final(self)@ == old(self)@,
            !old(self)@.finalized && old(self)@.format is Some ==> r == Ok::<(), AudioError>(())
                && final(self)@ == old(self)@,
            !old(self)@.finalized && old(self)@.format is None && !spec_wav_writable(*header)
                ==> r == Err::<(), AudioError>(AudioError::UnsupportedFormat) && final(self)@ == old(self)@,
            !old(self)@.finalized && old(self)@.format is None && spec_wav_writable(*header)
                ==> r == Ok::<(), AudioError>(()) && final(self)@ == (WavWriteView {
                format: Some(*header),
                ..old(self)@
            }),
            old(self)@.wf() ==> final(self)@.wf(),
    {
        if self.finalized {
            return Err(AudioError::Finalized);
        }
        if self.format.is_some() {
            return Ok(());
        }
        let block = header.frame_size();
        proof {
            assert(header.channels as int * (header.bits_per_sample / 8) as int <= 255 * 31)
                by (nonlinear_arith)
                requires
                    header.channels <= 255,
                    header.bits_per_sample / 8 <= 31,
            ;
            assert(header.sample_rate as int * block as int <= 0xFFFFFFFF * 7905)
                by (nonlinear_arith)
                requires
                    header.sample_rate <= 0xFFFFFFFF,
                    0 <= block <= 7905,
            ;
        }
        if !(header.is_valid() && header.channels >= 1 && (header.sample_rate as u64) * (
        block as u64) <= 0xFFFFFFFFu64) {
            return Err(AudioError::UnsupportedFormat);
        }
        self.format = Some(*header);
        proof {
            if old(self)@.wf() {
                let bpi = header.spec_bytes_per_sample() as int;
                assert(bpi == 2 || bpi == 4);
                vstd::arithmetic::div_mod::lemma_small_mod(0nat, bpi as nat);
            }
        }
        Ok(())
    }

    /// Append raw sample bytes.  Trailing bytes that do not form a whole
    /// sample are discarded, as the wire may cut anywhere.
    pub fn write(&mut self, data: &[u8]) -> (r: Result<(), AudioError>)
        requires
            old(self)@.wf(),
        ensures
            final(self)@.wf(),
            old(self)@.finalized ==> r == Err::<(), AudioError>(AudioError::Finalized) && final(self)@ == old(self)@,
            !old(self)@.finalized && old(self)@.format is None ==> r == Err::<(), AudioError>(
                AudioError::FormatNotSet,
            ) && final(self)@ == old(self)@,
            match old(self)@.format {
                Some(f) => !old(self)@.finalized ==> ({
                    let keep = ((data@.len() as int / f.spec_bytes_per_sample() as int)
                        * f.spec_bytes_per_sample() as int);
                    if old(self)@.data.len() + keep + 36 > 0xFFFFFFFF {
                        r == Err::<(), AudioError>(AudioError::TooLarge) && final(self)@ == old(self)@
                    } else {
                        r == Ok::<(), AudioError>(()) && final(self)@ == (WavWriteView {
                            data: old(self)@.data + data@.take(keep),
                            ..old(self)@
                        })
                    }
                }),
                None => true,
            },
    {
        if self.finalized {
            return Err(AudioError::Finalized);
        }
        let f = match &self.format {
            Some(f) => *f,
            None => {
                return Err(AudioError::FormatNotSet);
            },
        };
        let bps = f.bytes_per_sample();
        proof {
            assert((data@.len() as int / bps as int) * bps as int <= data@.len() as int && ((
            data@.len() as int / bps as int) * bps as int) % (bps as int) == 0)
                by (nonlinear_arith)
                requires
                    bps > 0,
                    data@.len() >= 0,
            ;
        }
        let keep = (data.len() / bps) * bps;
        if keep > 0xFFFFFFFFusize - 36 - self.data.len() {
            return Err(AudioError::TooLarge);
        }
        let mut i: usize = 0;
        while i < keep
            invariant
                i <= keep,
                keep <= data@.len(),
                self.data@ == old(self).data@ + data@.take(i as int),
                self.format == old(self).format,
                self.finalized == old(self).finalized,
                self.file_path == old(self).file_path,
                self.output == old(self).output,
            decreases keep - i,
        {
            self.data.push(*slice_index_get(data, i));
            proof {
                assert_seqs_equal!(old(self).data@ + data@.take(i as int) + seq![data@[i as int]]
                    == old(self).data@ + data@.take(i as int + 1));
            }
            i += 1;
        }
        proof {
            let bpi = f.spec_bytes_per_sample() as int;
            assert(bpi == 2 || bpi == 4);
            let dlen = old(self)@.data.len() as int;
            vstd::arithmetic::div_mod::lemma_add_mod_noop(dlen, keep as int, bpi);
            vstd::arithmetic::div_mod::lemma_small_mod(0nat, bpi as nat);
        }
        Ok(())
    }

    /// Flush and close: produce the finished WAV file bytes, exactly
    /// once, even if no data was ever written.  Without a format no
    /// physical file was ever begun, so none is produced.  A repeated
    /// call changes nothing.
    pub fn finalize(&mut self) -> (r: Result<(), AudioError>)
        requires
            old(self)@.wf(),
        ensures
            final(self)@.wf(),
            r == Ok::<(), AudioError>(()),
            old(self)@.finalized ==> final(self)@ == old(self)@,
            !old(self)@.finalized && old(self)@.format is None ==> final(self)@ == (WavWriteView {
                finalized: true,
                ..old(self)@
            }),
            match old(self)@.format {
                Some(f) => !old(self)@.finalized ==> final(self)@ == (WavWriteView {
                    finalized: true,
                    output: Some(spec_wav_bytes(f, old(self)@.data)),
                    ..old(self)@
                }),
                None => true,
            },
    {
        if self.finalized {
            return Ok(());
        }
        let f = match &self.format {
            Some(f) => *f,
            None => {
                self.finalized = true;
                return Ok(());
            },
        };
        let bytes = build_wav_bytes(&f, &self.data);
        self.output = Some(bytes);
        self.finalized = true;
        Ok(())
    }

    /// Hand the finished file bytes to the shell (at most once).
    pub fn take_output(&mut self) -> (r: Option<Vec<u8>>)
        ensures
            match r {
                Some(v) => old(self)@.output == Some(v@),
                None => old(self)@.output is None,
            },
            final(self)@ == (WavWriteView { output: None, ..old(self)@ }),
    {
        self.output.take()
    }
}

} // verus!
