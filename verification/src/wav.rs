//! RIFF/WAVE PCM: header parsing, format probing, sample decoding and seeking.
//!
//! The header is read the way a byte stream would deliver it: a read near the
//! end of the data returns fewer bytes and the missing ones stay zero, and a
//! skip may move past the end, after which nothing more can be read.
use vstd::prelude::*;
use crate::codec::CodecInfo;
use crate::source::{FormatSignature, SourceRequirements};
use crate::text::{ends_with, ends_with4, lowered_name, push_decimal, spec_decimal, spec_lowered_name};

verus! {

// ---------------------------------------------------------------------------
// Byte-level model
// ---------------------------------------------------------------------------

/// The byte at `i`, or zero past either end: what a short read leaves behind.
pub open spec fn byte_at(d: Seq<u8>, i: int) -> u8 {
    if 0 <= i < d.len() {
        d[i]
    } else {
        0u8
    }
}

pub open spec fn le16(b0: u8, b1: u8) -> int {
    b0 + 256 * b1
}

pub open spec fn le32(b0: u8, b1: u8, b2: u8, b3: u8) -> int {
    b0 + 256 * b1 + 65536 * b2 + 16777216 * b3
}

/// The four bytes at `at` are `tag`.
pub open spec fn tag_at(d: Seq<u8>, at: int, tag: Seq<u8>) -> bool {
    0 <= at && at + 4 <= d.len() && d.subrange(at, at + 4) == tag
}

/// `RIFF`
pub open spec fn riff_tag() -> Seq<u8> {
    seq![82u8, 73u8, 70u8, 70u8]
}

/// `WAVE`
pub open spec fn wave_tag() -> Seq<u8> {
    seq![87u8, 65u8, 86u8, 69u8]
}

/// `fmt `
pub open spec fn fmt_tag() -> Seq<u8> {
    seq![102u8, 109u8, 116u8, 32u8]
}

/// `data`
pub open spec fn data_tag() -> Seq<u8> {
    seq![100u8, 97u8, 116u8, 97u8]
}

// ---------------------------------------------------------------------------
// Header model
// ---------------------------------------------------------------------------

#[derive(Debug, Clone, Copy, PartialEq, Eq, Structural)]
pub enum WavError {
    NotRiff,
    NotWave,
    UnsupportedFormat(u16),
    UnsupportedBitDepth(u8),
    UnsupportedChannels(u8),
    NoFmtChunk,
    NoDataChunk,
}

impl WavError {
    /// The message shown for this error.
    pub open spec fn spec_message(self) -> Seq<char> {
        match self {
            WavError::NotRiff => "not a RIFF file"@,
            WavError::NotWave => "not a WAVE file"@,
            WavError::UnsupportedFormat(f) => "unsupported audio format: "@ + spec_decimal(f as nat),
            WavError::UnsupportedBitDepth(b) => "unsupported bit depth: "@ + spec_decimal(b as nat),
            WavError::UnsupportedChannels(c) => "unsupported channel count: "@ + spec_decimal(c as nat),
            WavError::NoFmtChunk => "no fmt chunk found"@,
            WavError::NoDataChunk => "no data chunk found"@,
        }
    }

    pub fn to_string(&self) -> (r: String)
        ensures
            r@ == self.spec_message(),
    {
        match self {
            WavError::NotRiff => String::from_str("not a RIFF file"),
            WavError::NotWave => String::from_str("not a WAVE file"),
            WavError::UnsupportedFormat(f) => {
                let mut s = String::from_str("unsupported audio format: ");
                push_decimal(&mut s, *f as u64);
                s
            },
            WavError::UnsupportedBitDepth(b) => {
                let mut s = String::from_str("unsupported bit depth: ");
                push_decimal(&mut s, *b as u64);
                s
            },
            WavError::UnsupportedChannels(c) => {
                let mut s = String::from_str("unsupported channel count: ");
                push_decimal(&mut s, *c as u64);
                s
            },
            WavError::NoFmtChunk => String::from_str("no fmt chunk found"),
            WavError::NoDataChunk => String::from_str("no data chunk found"),
        }
    }
}

/// What a `fmt ` chunk says.
#[derive(Debug, Clone, Copy, PartialEq, Eq, Structural)]
pub struct WavFmt {
    pub sample_rate: u32,
    pub channels: u8,
    pub bit_depth: u8,
}

/// What the header says of the audio that follows it.
#[derive(Debug, Clone, Copy, PartialEq, Eq, Structural)]
pub struct WavHeader {
    pub sample_rate: u32,
    pub channels: u8,
    pub bit_depth: u8,
    /// Where reading starts once the stream is open: the start of the file.
    pub data_start: u64,
    pub bytes_per_frame: usize,
    pub total_frames: u64,
}

/// Byte `j` of the 16-byte `fmt ` record of a chunk of length `len` whose body
/// starts at `start`; bytes the chunk does not hold stay zero.
pub open spec fn fmt_byte(d: Seq<u8>, start: int, len: int, j: int) -> u8 {
    if j < len && j < 16 {
        byte_at(d, start + j)
    } else {
        0u8
    }
}

pub open spec fn valid_bit_depth(b: u8) -> bool {
    b == 8 || b == 16 || b == 24 || b == 32
}

pub open spec fn spec_parse_fmt(d: Seq<u8>, start: int, len: int) -> Result<WavFmt, WavError> {
    let audio_format = le16(fmt_byte(d, start, len, 0), fmt_byte(d, start, len, 1));
    let channels = fmt_byte(d, start, len, 2);
    let bit_depth = fmt_byte(d, start, len, 14);
    if audio_format != 1 {
        Err(WavError::UnsupportedFormat(audio_format as u16))
    } else if !valid_bit_depth(bit_depth) {
        Err(WavError::UnsupportedBitDepth(bit_depth))
    } else if channels == 0 || channels > 8 {
        Err(WavError::UnsupportedChannels(channels))
    } else {
        Ok(
            WavFmt {
                sample_rate: le32(
                    fmt_byte(d, start, len, 4),
                    fmt_byte(d, start, len, 5),
                    fmt_byte(d, start, len, 6),
                    fmt_byte(d, start, len, 7),
                ) as u32,
                channels,
                bit_depth,
            },
        )
    }
}

/// The length field of the chunk whose header starts at `pos`.
pub open spec fn chunk_len_at(d: Seq<u8>, pos: int) -> int {
    le32(byte_at(d, pos + 4), byte_at(d, pos + 5), byte_at(d, pos + 6), byte_at(d, pos + 7))
}

/// The outcome when the chunks run out before a `data` chunk.
pub open spec fn walk_end(fmt: Option<WavFmt>) -> Result<WavHeader, WavError> {
    if fmt is None {
        Err(WavError::NoFmtChunk)
    } else {
        Err(WavError::NoDataChunk)
    }
}

pub open spec fn spec_bytes_per_frame(f: WavFmt) -> int {
    f.channels * (f.bit_depth / 8)
}

pub open spec fn header_of(f: WavFmt, data_size: int) -> WavHeader {
    let bpf = spec_bytes_per_frame(f);
    WavHeader {
        sample_rate: f.sample_rate,
        channels: f.channels,
        bit_depth: f.bit_depth,
        data_start: 0,
        bytes_per_frame: bpf as usize,
        total_frames: if bpf > 0 {
            (data_size / bpf) as u64
        } else {
            0
        },
    }
}

/// The chunk walk from the chunk header at `pos`, with the format found so far.
/// A `fmt ` chunk replaces the format; the first `data` chunk ends the walk;
/// every other chunk is skipped.
pub open spec fn spec_walk(d: Seq<u8>, pos: int, fmt: Option<WavFmt>) -> Result<WavHeader, WavError>
    decreases d.len() - pos,
{
    if pos < 0 || pos + 4 > d.len() {
        walk_end(fmt)
    } else {
        let len = chunk_len_at(d, pos);
        let next = pos + 8 + len;
        if tag_at(d, pos, fmt_tag()) {
            match spec_parse_fmt(d, pos + 8, len) {
                Err(e) => Err(e),
                Ok(f) => if next + 4 <= d.len() {
                    spec_walk(d, next, Some(f))
                } else {
                    walk_end(Some(f))
                },
            }
        } else if tag_at(d, pos, data_tag()) {
            match fmt {
                None => Err(WavError::NoFmtChunk),
                Some(f) => Ok(header_of(f, len)),
            }
        } else if next + 4 <= d.len() {
            spec_walk(d, next, fmt)
        } else {
            walk_end(fmt)
        }
    }
}

/// What the header of the file `d` says, or why it is refused.
pub open spec fn spec_parse_header(d: Seq<u8>) -> Result<WavHeader, WavError> {
    if !tag_at(d, 0, riff_tag()) {
        Err(WavError::NotRiff)
    } else if !tag_at(d, 8, wave_tag()) {
        Err(WavError::NotWave)
    } else {
        spec_walk(d, 12, None)
    }
}

/// The four little-endian bytes of `v`.
pub open spec fn le32_bytes(v: int) -> Seq<u8> {
    seq![(v % 256) as u8, ((v / 256) % 256) as u8, ((v / 65536) % 256) as u8, ((v / 16777216) % 256) as u8]
}

/// The two little-endian bytes of `v`.
pub open spec fn le16_bytes(v: int) -> Seq<u8> {
    seq![(v % 256) as u8, ((v / 256) % 256) as u8]
}

/// The file a plain writer produces: a RIFF header, a 16-byte `fmt ` chunk
/// for PCM, and one `data` chunk holding `data`.
pub open spec fn canonical_wav(sample_rate: u32, channels: u8, bit_depth: u8, data: Seq<u8>) -> Seq<u8> {
    let block = channels * (bit_depth / 8);
    riff_tag() + le32_bytes(36 + data.len() as int) + wave_tag() + fmt_tag() + le32_bytes(16) + le16_bytes(1)
        + le16_bytes(channels as int) + le32_bytes(sample_rate as int) + le32_bytes(sample_rate * block)
        + le16_bytes(block) + le16_bytes(bit_depth as int) + data_tag() + le32_bytes(data.len() as int)
        + data
}

proof fn lemma_le32_roundtrip(v: int)
    requires
        0 <= v < 0x1_0000_0000,
    ensures
        le32(le32_bytes(v)[0], le32_bytes(v)[1], le32_bytes(v)[2], le32_bytes(v)[3]) == v,
{
    let b = le32_bytes(v);
    assert(b[0] as int == v % 256 && b[1] as int == (v / 256) % 256 && b[2] as int == (v / 65536) % 256
        && b[3] as int == (v / 16777216) % 256) by {
        assert(0 <= v % 256 < 256);
        assert(0 <= (v / 256) % 256 < 256);
        assert(0 <= (v / 65536) % 256 < 256);
        assert(0 <= (v / 16777216) % 256 < 256);
    }
    assert(v % 256 + 256 * ((v / 256) % 256) + 65536 * ((v / 65536) % 256) + 16777216 * ((v
        / 16777216) % 256) == v) by (nonlinear_arith)
        requires
            0 <= v < 0x1_0000_0000,
    ;
}

/// A file as a plain writer produces it parses to what was written: the
/// rate, channels and bit depth of its `fmt ` chunk and as many frames as
/// its data holds.
pub proof fn law_canonical_wav_parses(sample_rate: u32, channels: u8, bit_depth: u8, data: Seq<u8>)
    requires
        1 <= channels <= 8,
        valid_bit_depth(bit_depth),
        data.len() + 36 < 0x1_0000_0000,
    ensures
        spec_parse_header(canonical_wav(sample_rate, channels, bit_depth, data)) == Ok::<WavHeader, WavError>(
            header_of(WavFmt { sample_rate, channels, bit_depth }, data.len() as int),
        ),
{
    let d = canonical_wav(sample_rate, channels, bit_depth, data);
    let block = channels * (bit_depth / 8);
    let n = data.len() as int;
    assert(1 <= block <= 32) by (nonlinear_arith)
        requires
            1 <= channels <= 8,
            1 <= bit_depth / 8 <= 4,
            block == channels * (bit_depth / 8),
    ;
    let head = riff_tag() + le32_bytes(36 + n) + wave_tag() + fmt_tag() + le32_bytes(16) + le16_bytes(1)
        + le16_bytes(channels as int) + le32_bytes(sample_rate as int) + le32_bytes(sample_rate * block)
        + le16_bytes(block) + le16_bytes(bit_depth as int) + data_tag() + le32_bytes(n);
    assert(head.len() == 44);
    assert(d == head + data);
    assert(d.len() == 44 + n);
    assert forall|i: int| 0 <= i < 44 implies d[i] == head[i] by {}
    // The RIFF and WAVE tags.
    assert(d.subrange(0, 4) =~= riff_tag());
    assert(d.subrange(8, 12) =~= wave_tag());
    // The fmt chunk at 12.
    assert(d.subrange(12, 16) =~= fmt_tag());
    lemma_le32_roundtrip(16);
    assert(chunk_len_at(d, 12) == 16);
    assert(!tag_at(d, 12, data_tag()));
    lemma_le32_roundtrip(sample_rate as int);
    assert(fmt_byte(d, 20, 16, 0) == 1u8);
    assert(fmt_byte(d, 20, 16, 1) == 0u8);
    assert(fmt_byte(d, 20, 16, 2) == channels);
    assert(fmt_byte(d, 20, 16, 14) == bit_depth);
    assert(le32(fmt_byte(d, 20, 16, 4), fmt_byte(d, 20, 16, 5), fmt_byte(d, 20, 16, 6), fmt_byte(d, 20, 16, 7))
        == sample_rate as int);
    assert(spec_parse_fmt(d, 20, 16) == Ok::<WavFmt, WavError>(WavFmt { sample_rate, channels, bit_depth }));
    // The data chunk at 36.
    assert(d.subrange(36, 40) =~= data_tag());
    assert(!tag_at(d, 36, fmt_tag()));
    lemma_le32_roundtrip(n);
    assert(chunk_len_at(d, 36) == n);
    assert(spec_walk(d, 36, Some(WavFmt { sample_rate, channels, bit_depth })) == Ok::<WavHeader, WavError>(
        header_of(WavFmt { sample_rate, channels, bit_depth }, n),
    ));
}

/// The first 36 bytes a plain writer puts down: the RIFF header (with
/// `riff_size`) and a 16-byte PCM `fmt ` chunk.
#[verifier::opaque]
pub open spec fn wav_head(sample_rate: u32, channels: u8, bit_depth: u8, riff_size: int) -> Seq<u8> {
    let block = channels * (bit_depth / 8);
    riff_tag() + le32_bytes(riff_size) + wave_tag() + fmt_tag() + le32_bytes(16) + le16_bytes(1)
        + le16_bytes(channels as int) + le32_bytes(sample_rate as int) + le32_bytes(sample_rate * block)
        + le16_bytes(block) + le16_bytes(bit_depth as int)
}

/// A WAV file as a plain writer lays it out, with one more chunk (`tag`,
/// holding `body`) between the `fmt ` chunk and the `data` chunk.
pub open spec fn wav_with_extra_chunk(
    sample_rate: u32,
    channels: u8,
    bit_depth: u8,
    tag: Seq<u8>,
    body: Seq<u8>,
    data: Seq<u8>,
) -> Seq<u8> {
    wav_head(sample_rate, channels, bit_depth, (44 + body.len() + data.len()) as int) + (tag + le32_bytes(
        body.len() as int,
    ) + body) + (data_tag() + le32_bytes(data.len() as int) + data)
}

/// A file that starts with a plain header and `fmt ` chunk walks from its
/// first chunk to the chunk after `fmt ` with that chunk's format.
#[verifier::spinoff_prover]
proof fn lemma_head_walk(d: Seq<u8>, sample_rate: u32, channels: u8, bit_depth: u8, riff_size: int)
    requires
        1 <= channels <= 8,
        valid_bit_depth(bit_depth),
        0 <= riff_size < 0x1_0000_0000,
        d.len() >= 40,
        d.subrange(0, 36) == wav_head(sample_rate, channels, bit_depth, riff_size),
    ensures
        spec_parse_header(d) == spec_walk(d, 36, Some(WavFmt { sample_rate, channels, bit_depth })),
{
    reveal(wav_head);
    let pre = wav_head(sample_rate, channels, bit_depth, riff_size);
    let block = channels * (bit_depth / 8);
    assert(1 <= block <= 32) by (nonlinear_arith)
        requires
            1 <= channels <= 8,
            1 <= bit_depth / 8 <= 4,
            block == channels * (bit_depth / 8),
    ;
    assert(pre.len() == 36);
    assert forall|i: int| 0 <= i < 36 implies d[i] == pre[i] by {
        assert(d.subrange(0, 36)[i] == d[i]);
    }
    assert(d.subrange(0, 4) =~= riff_tag());
    assert(d.subrange(8, 12) =~= wave_tag());
    assert(d.subrange(12, 16) =~= fmt_tag());
    lemma_le32_roundtrip(16);
    assert(chunk_len_at(d, 12) == 16);
    assert(!tag_at(d, 12, data_tag()));
    lemma_le32_roundtrip(sample_rate as int);
    assert(fmt_byte(d, 20, 16, 0) == 1u8);
    assert(fmt_byte(d, 20, 16, 1) == 0u8);
    assert(fmt_byte(d, 20, 16, 2) == channels);
    assert(fmt_byte(d, 20, 16, 14) == bit_depth);
    assert(le32(fmt_byte(d, 20, 16, 4), fmt_byte(d, 20, 16, 5), fmt_byte(d, 20, 16, 6), fmt_byte(d, 20, 16, 7))
        == sample_rate as int);
    assert(spec_parse_fmt(d, 20, 16) == Ok::<WavFmt, WavError>(WavFmt { sample_rate, channels, bit_depth }));
}

/// The chunk header at `pos` with `tag` and length `len`.
pub open spec fn chunk_header_at(d: Seq<u8>, pos: int, tag: Seq<u8>, len: int) -> bool {
    0 <= pos && pos + 8 <= d.len() && d.subrange(pos, pos + 8) == tag + le32_bytes(len)
}

proof fn lemma_chunk_header(d: Seq<u8>, pos: int, tag: Seq<u8>, len: int)
    requires
        tag.len() == 4,
        0 <= len < 0x1_0000_0000,
        chunk_header_at(d, pos, tag, len),
    ensures
        tag_at(d, pos, tag),
        chunk_len_at(d, pos) == len,
{
    let h = tag + le32_bytes(len);
    assert forall|i: int| 0 <= i < 8 implies d[pos + i] == h[i] by {
        assert(d.subrange(pos, pos + 8)[i] == d[pos + i]);
    }
    assert(d.subrange(pos, pos + 4) =~= tag);
    lemma_le32_roundtrip(len);
    assert(byte_at(d, pos + 4) == h[4]);
    assert(byte_at(d, pos + 5) == h[5]);
    assert(byte_at(d, pos + 6) == h[6]);
    assert(byte_at(d, pos + 7) == h[7]);
}

/// A chunk that is neither `fmt ` nor `data` is stepped over, the format kept.
proof fn lemma_skip_chunk(d: Seq<u8>, pos: int, tag: Seq<u8>, len: int, fmt: Option<WavFmt>)
    requires
        tag.len() == 4,
        tag != fmt_tag(),
        tag != data_tag(),
        0 <= len < 0x1_0000_0000,
        chunk_header_at(d, pos, tag, len),
        pos + 8 + len + 4 <= d.len(),
    ensures
        spec_walk(d, pos, fmt) == spec_walk(d, pos + 8 + len, fmt),
{
    lemma_chunk_header(d, pos, tag, len);
}

/// A `data` chunk after a format ends the walk with the header.
proof fn lemma_data_chunk(d: Seq<u8>, pos: int, len: int, f: WavFmt)
    requires
        0 <= len < 0x1_0000_0000,
        chunk_header_at(d, pos, data_tag(), len),
    ensures
        spec_walk(d, pos, Some(f)) == Ok::<WavHeader, WavError>(header_of(f, len)),
{
    lemma_chunk_header(d, pos, data_tag(), len);
    assert(!tag_at(d, pos, fmt_tag()));
}

/// A 16-byte PCM `fmt ` chunk as a plain writer puts it down.
#[verifier::opaque]
pub open spec fn fmt_chunk(sample_rate: u32, channels: u8, bit_depth: u8) -> Seq<u8> {
    let block = channels * (bit_depth / 8);
    fmt_tag() + le32_bytes(16) + le16_bytes(1) + le16_bytes(channels as int) + le32_bytes(
        sample_rate as int,
    ) + le32_bytes(sample_rate * block) + le16_bytes(block) + le16_bytes(bit_depth as int)
}

/// A WAV file with a chunk the reader does not know (`tag`, holding `body`)
/// before its `fmt ` chunk, then its `data` chunk.
pub open spec fn wav_with_leading_chunk(
    sample_rate: u32,
    channels: u8,
    bit_depth: u8,
    tag: Seq<u8>,
    body: Seq<u8>,
    data: Seq<u8>,
) -> Seq<u8> {
    riff_tag() + le32_bytes((44 + body.len() + data.len()) as int) + wave_tag() + (tag + le32_bytes(
        body.len() as int,
    ) + body) + fmt_chunk(sample_rate, channels, bit_depth) + (data_tag() + le32_bytes(
        data.len() as int,
    ) + data)
}

#[verifier::spinoff_prover]
proof fn lemma_fmt_chunk(
    d: Seq<u8>,
    pos: int,
    sample_rate: u32,
    channels: u8,
    bit_depth: u8,
    fmt: Option<WavFmt>,
)
    requires
        1 <= channels <= 8,
        valid_bit_depth(bit_depth),
        0 <= pos,
        pos + 28 <= d.len(),
        d.subrange(pos, pos + 24) == fmt_chunk(sample_rate, channels, bit_depth),
    ensures
        spec_walk(d, pos, fmt) == spec_walk(d, pos + 24, Some(WavFmt { sample_rate, channels, bit_depth })),
{
    reveal(fmt_chunk);
    let c = fmt_chunk(sample_rate, channels, bit_depth);
    let block = channels * (bit_depth / 8);
    assert(1 <= block <= 32) by (nonlinear_arith)
        requires
            1 <= channels <= 8,
            1 <= bit_depth / 8 <= 4,
            block == channels * (bit_depth / 8),
    ;
    assert(c.len() == 24);
    assert forall|i: int| 0 <= i < 24 implies d[pos + i] == c[i] by {
        assert(d.subrange(pos, pos + 24)[i] == d[pos + i]);
    }
    assert(d.subrange(pos, pos + 4) =~= fmt_tag());
    lemma_le32_roundtrip(16);
    assert(byte_at(d, pos + 4) == c[4]);
    assert(byte_at(d, pos + 5) == c[5]);
    assert(byte_at(d, pos + 6) == c[6]);
    assert(byte_at(d, pos + 7) == c[7]);
    assert(chunk_len_at(d, pos) == 16);
    lemma_le32_roundtrip(sample_rate as int);
    let st = pos + 8;
    assert(le16_bytes(1) =~= seq![1u8, 0u8]);
    assert(c[8] == 1u8 && c[9] == 0u8);
    assert(byte_at(d, st) == c[8]);
    assert(byte_at(d, st + 1) == c[9]);
    assert(fmt_byte(d, st, 16, 0) == 1u8);
    assert(c[10] == le16_bytes(channels as int)[0]);
    assert(le16_bytes(channels as int)[0] == channels);
    assert(byte_at(d, st + 2) == c[10]);
    assert(c[22] == le16_bytes(bit_depth as int)[0]);
    assert(le16_bytes(bit_depth as int)[0] == bit_depth);
    assert(byte_at(d, st + 14) == c[22]);
    let rb = le32_bytes(sample_rate as int);
    assert(c[12] == rb[0] && c[13] == rb[1] && c[14] == rb[2] && c[15] == rb[3]);
    assert(byte_at(d, st + 4) == c[12]);
    assert(byte_at(d, st + 5) == c[13]);
    assert(byte_at(d, st + 6) == c[14]);
    assert(byte_at(d, st + 7) == c[15]);
    assert(fmt_byte(d, st, 16, 1) == 0u8);
    assert(fmt_byte(d, st, 16, 2) == channels);
    assert(fmt_byte(d, st, 16, 14) == bit_depth);
    assert(le32(fmt_byte(d, st, 16, 4), fmt_byte(d, st, 16, 5), fmt_byte(d, st, 16, 6), fmt_byte(d, st, 16, 7))
        == sample_rate as int);
    assert(spec_parse_fmt(d, st, 16) == Ok::<WavFmt, WavError>(WavFmt { sample_rate, channels, bit_depth }));
}

/// A file that starts with the RIFF and WAVE tags walks its chunks from 12.
proof fn lemma_riff_header(d: Seq<u8>, size: int)
    requires
        d.len() >= 12,
        d.subrange(0, 12) == riff_tag() + le32_bytes(size) + wave_tag(),
    ensures
        spec_parse_header(d) == spec_walk(d, 12, None),
{
    let hd = riff_tag() + le32_bytes(size) + wave_tag();
    assert forall|i: int| 0 <= i < 12 implies d[i] == hd[i] by {
        assert(d.subrange(0, 12)[i] == d[i]);
    }
    assert(d.subrange(0, 4) =~= riff_tag());
    assert(d.subrange(8, 12) =~= wave_tag());
}

/// Where the parts of `hd + (h1 + body) + fc + (h2 + rest)` lie, for a
/// 12-byte file header, 8-byte chunk headers and a 24-byte chunk `fc`.
proof fn lemma_four_parts(hd: Seq<u8>, h1: Seq<u8>, body: Seq<u8>, fc: Seq<u8>, h2: Seq<u8>, rest: Seq<u8>)
    requires
        hd.len() == 12,
        h1.len() == 8,
        fc.len() == 24,
        h2.len() == 8,
    ensures
        ({
            let d = hd + (h1 + body) + fc + (h2 + rest);
            let p = 20 + body.len() as int;
            &&& d.len() == p + 32 + rest.len()
            &&& d.subrange(0, 12) == hd
            &&& d.subrange(12, 20) == h1
            &&& d.subrange(p, p + 24) == fc
            &&& d.subrange(p + 24, p + 32) == h2
        }),
{
    let d = hd + (h1 + body) + fc + (h2 + rest);
    let p = 20 + body.len() as int;
    assert(d.subrange(0, 12) =~= hd);
    assert(d.subrange(12, 20) =~= h1);
    assert(d.subrange(p, p + 24) =~= fc);
    assert(d.subrange(p + 24, p + 32) =~= h2);
}

/// A chunk the reader does not know is skipped before the `fmt ` chunk too:
/// the file parses to the format of its `fmt ` chunk and as many frames as
/// its data holds.
#[verifier::spinoff_prover]
pub proof fn law_leading_unknown_chunk_is_skipped(
    sample_rate: u32,
    channels: u8,
    bit_depth: u8,
    tag: Seq<u8>,
    body: Seq<u8>,
    data: Seq<u8>,
)
    requires
        1 <= channels <= 8,
        valid_bit_depth(bit_depth),
        tag.len() == 4,
        tag != fmt_tag(),
        tag != data_tag(),
        body.len() + data.len() + 44 < 0x1_0000_0000,
    ensures
        spec_parse_header(wav_with_leading_chunk(sample_rate, channels, bit_depth, tag, body, data))
            == Ok::<WavHeader, WavError>(header_of(
            WavFmt { sample_rate, channels, bit_depth },
            data.len() as int,
        )),
{
    let m = body.len() as int;
    let n = data.len() as int;
    let hd = riff_tag() + le32_bytes(44 + m + n) + wave_tag();
    let h1 = tag + le32_bytes(m);
    let fc = fmt_chunk(sample_rate, channels, bit_depth);
    let h2 = data_tag() + le32_bytes(n);
    let d = wav_with_leading_chunk(sample_rate, channels, bit_depth, tag, body, data);
    assert(fc.len() == 24) by {
        reveal(fmt_chunk);
    }
    assert(hd.len() == 12);
    lemma_four_parts(hd, h1, body, fc, h2, data);
    assert(d == hd + (h1 + body) + fc + (h2 + data));
    lemma_riff_header(d, 44 + m + n);
    let p = 20 + m;
    let f = WavFmt { sample_rate, channels, bit_depth };
    lemma_skip_chunk(d, 12, tag, m, None);
    lemma_fmt_chunk(d, p, sample_rate, channels, bit_depth, None);
    lemma_data_chunk(d, p + 24, n, f);
}

/// Where the parts of `pre + (h1 + body) + (h2 + rest)` lie, for 8-byte
/// chunk headers `h1` and `h2`.
proof fn lemma_three_parts(pre: Seq<u8>, h1: Seq<u8>, body: Seq<u8>, h2: Seq<u8>, rest: Seq<u8>)
    requires
        h1.len() == 8,
        h2.len() == 8,
    ensures
        ({
            let d = pre + (h1 + body) + (h2 + rest);
            let p = pre.len() as int;
            let q = p + 8 + body.len();
            &&& d.len() == q + 8 + rest.len()
            &&& d.subrange(0, p) == pre
            &&& d.subrange(p, p + 8) == h1
            &&& d.subrange(q, q + 8) == h2
        }),
{
    let d = pre + (h1 + body) + (h2 + rest);
    let p = pre.len() as int;
    let q = p + 8 + body.len();
    assert(d.subrange(0, p) =~= pre);
    assert(d.subrange(p, p + 8) =~= h1);
    assert(d.subrange(q, q + 8) =~= h2);
}

/// Inserting a chunk the reader does not know between the `fmt ` and `data`
/// chunks of a plain file changes nothing in what the file parses to.
#[verifier::spinoff_prover]
pub proof fn law_unknown_chunk_changes_nothing(
    sample_rate: u32,
    channels: u8,
    bit_depth: u8,
    tag: Seq<u8>,
    body: Seq<u8>,
    data: Seq<u8>,
)
    requires
        1 <= channels <= 8,
        valid_bit_depth(bit_depth),
        tag.len() == 4,
        tag != fmt_tag(),
        tag != data_tag(),
        body.len() + data.len() + 44 < 0x1_0000_0000,
    ensures
        spec_parse_header(wav_with_extra_chunk(sample_rate, channels, bit_depth, tag, body, data))
            == spec_parse_header(canonical_wav(sample_rate, channels, bit_depth, data)),
{
    law_unknown_chunk_is_skipped(sample_rate, channels, bit_depth, tag, body, data);
    law_canonical_wav_parses(sample_rate, channels, bit_depth, data);
}

/// Chunks the reader does not know are skipped wherever they stand: a chunk
/// of any other tag and any length between the `fmt ` chunk and the `data`
/// chunk leaves the parsed header what the plain file gives, the format of
/// the `fmt ` chunk and as many frames as the data holds.
#[verifier::spinoff_prover]
pub proof fn law_unknown_chunk_is_skipped(
    sample_rate: u32,
    channels: u8,
    bit_depth: u8,
    tag: Seq<u8>,
    body: Seq<u8>,
    data: Seq<u8>,
)
    requires
        1 <= channels <= 8,
        valid_bit_depth(bit_depth),
        tag.len() == 4,
        tag != fmt_tag(),
        tag != data_tag(),
        body.len() + data.len() + 44 < 0x1_0000_0000,
    ensures
        spec_parse_header(wav_with_extra_chunk(sample_rate, channels, bit_depth, tag, body, data))
            == Ok::<WavHeader, WavError>(header_of(
            WavFmt { sample_rate, channels, bit_depth },
            data.len() as int,
        )),
{
    let m = body.len() as int;
    let n = data.len() as int;
    let pre = wav_head(sample_rate, channels, bit_depth, 44 + m + n);
    let h1 = tag + le32_bytes(m);
    let h2 = data_tag() + le32_bytes(n);
    let d = wav_with_extra_chunk(sample_rate, channels, bit_depth, tag, body, data);
    assert(pre.len() == 36) by {
        reveal(wav_head);
    }
    lemma_three_parts(pre, h1, body, h2, data);
    assert(d == pre + (h1 + body) + (h2 + data));
    let f = WavFmt { sample_rate, channels, bit_depth };
    lemma_head_walk(d, sample_rate, channels, bit_depth, 44 + m + n);
    lemma_skip_chunk(d, 36, tag, m, Some(f));
    lemma_data_chunk(d, 44 + m, n, f);
}


// ---------------------------------------------------------------------------
// Header parsing
// ---------------------------------------------------------------------------

/// Byte `k` after `pos`, zero past the end.
pub(crate) fn byte_after(d: &[u8], pos: usize, k: usize) -> (b: u8)
    requires
        pos <= d.len(),
    ensures
        b == byte_at(d@, pos + k),
{
    if k < d.len() - pos {
        d[pos + k]
    } else {
        0
    }
}

fn le32_after(d: &[u8], pos: usize, k: usize) -> (v: u32)
    requires
        pos <= d.len(),
        k + 3 <= usize::MAX,
    ensures
        v == le32(
            byte_at(d@, pos + k),
            byte_at(d@, pos + k + 1),
            byte_at(d@, pos + k + 2),
            byte_at(d@, pos + k + 3),
        ),
{
    let b0 = byte_after(d, pos, k);
    let b1 = byte_after(d, pos, k + 1);
    let b2 = byte_after(d, pos, k + 2);
    let b3 = byte_after(d, pos, k + 3);
    b0 as u32 + (b1 as u32) * 256 + (b2 as u32) * 65536 + (b3 as u32) * 16777216
}

/// The four bytes at `pos` are `t0 t1 t2 t3`.
pub(crate) fn tag_matches(d: &[u8], pos: usize, t0: u8, t1: u8, t2: u8, t3: u8) -> (r: bool)
    ensures
        r == tag_at(d@, pos as int, seq![t0, t1, t2, t3]),
{
    if pos <= d.len() && 4 <= d.len() - pos {
        let r = d[pos] == t0 && d[pos + 1] == t1 && d[pos + 2] == t2 && d[pos + 3] == t3;
        proof {
            let sub = d@.subrange(pos as int, pos + 4);
            if r {
                assert(sub =~= seq![t0, t1, t2, t3]);
            } else if sub == seq![t0, t1, t2, t3] {
                assert(sub[0] == t0 && sub[1] == t1 && sub[2] == t2 && sub[3] == t3);
            }
        }
        r
    } else {
        false
    }
}

/// Byte `j` of the `fmt ` record whose body starts at `pos + 8`.
fn fmt_byte_at(d: &[u8], pos: usize, len: u32, j: usize) -> (b: u8)
    requires
        pos <= d.len(),
        j < 16,
    ensures
        b == fmt_byte(d@, pos + 8, len as int, j as int),
{
    if j < len as usize && j < 16 {
        byte_after(d, pos, 8 + j)
    } else {
        0
    }
}

fn parse_fmt(d: &[u8], pos: usize, len: u32) -> (r: Result<WavFmt, WavError>)
    requires
        pos <= d.len(),
    ensures
        r == spec_parse_fmt(d@, pos + 8, len as int),
{
    let f0 = fmt_byte_at(d, pos, len, 0);
    let f1 = fmt_byte_at(d, pos, len, 1);
    let audio_format: u16 = f0 as u16 + (f1 as u16) * 256;
    let channels = fmt_byte_at(d, pos, len, 2);
    let bit_depth = fmt_byte_at(d, pos, len, 14);
    if audio_format != 1 {
        return Err(WavError::UnsupportedFormat(audio_format));
    }
    if !(bit_depth == 8 || bit_depth == 16 || bit_depth == 24 || bit_depth == 32) {
        return Err(WavError::UnsupportedBitDepth(bit_depth));
    }
    if channels == 0 || channels > 8 {
        return Err(WavError::UnsupportedChannels(channels));
    }
    let r0 = fmt_byte_at(d, pos, len, 4);
    let r1 = fmt_byte_at(d, pos, len, 5);
    let r2 = fmt_byte_at(d, pos, len, 6);
    let r3 = fmt_byte_at(d, pos, len, 7);
    let sample_rate: u32 = r0 as u32 + (r1 as u32) * 256 + (r2 as u32) * 65536 + (r3 as u32)
        * 16777216;
    Ok(WavFmt { sample_rate, channels, bit_depth })
}

fn end_of_chunks(fmt: Option<WavFmt>) -> (r: Result<WavHeader, WavError>)
    ensures
        r == walk_end(fmt),
{
    match fmt {
        None => Err(WavError::NoFmtChunk),
        Some(_) => Err(WavError::NoDataChunk),
    }
}

fn make_header(f: WavFmt, data_size: u32) -> (h: WavHeader)
    requires
        1 <= f.channels <= 8,
        valid_bit_depth(f.bit_depth),
    ensures
        h == header_of(f, data_size as int),
{
    let bps = f.bit_depth as usize / 8;
    assert(1 <= f.channels * bps <= 32) by (nonlinear_arith)
        requires
            1 <= f.channels <= 8,
            1 <= bps <= 4,
    ;
    let bytes_per_frame: usize = (f.channels as usize) * bps;
    let total_frames: u64 = data_size as u64 / bytes_per_frame as u64;
    WavHeader {
        sample_rate: f.sample_rate,
        channels: f.channels,
        bit_depth: f.bit_depth,
        data_start: 0,
        bytes_per_frame,
        total_frames,
    }
}

/// Parses the RIFF/WAVE header of the file `d`.
pub fn parse_header(d: &[u8]) -> (r: Result<WavHeader, WavError>)
    ensures
        r == spec_parse_header(d@),
        r matches Ok(h) ==> 1 <= h.channels <= 8 && valid_bit_depth(h.bit_depth)
            && h.bytes_per_frame == h.channels * (h.bit_depth / 8),
{
    if !tag_matches(d, 0, 82, 73, 70, 70) {
        proof {
            assert(riff_tag() =~= seq![82u8, 73u8, 70u8, 70u8]);
        }
        return Err(WavError::NotRiff);
    }
    if !tag_matches(d, 8, 87, 65, 86, 69) {
        proof {
            assert(riff_tag() =~= seq![82u8, 73u8, 70u8, 70u8]);
            assert(wave_tag() =~= seq![87u8, 65u8, 86u8, 69u8]);
        }
        return Err(WavError::NotWave);
    }
    proof {
        assert(riff_tag() =~= seq![82u8, 73u8, 70u8, 70u8]);
        assert(wave_tag() =~= seq![87u8, 65u8, 86u8, 69u8]);
        assert(fmt_tag() =~= seq![102u8, 109u8, 116u8, 32u8]);
        assert(data_tag() =~= seq![100u8, 97u8, 116u8, 97u8]);
    }
    let mut pos: usize = 12;
    let mut fmt: Option<WavFmt> = None;
    loop
        invariant
            12 <= pos <= d.len(),
            spec_walk(d@, pos as int, fmt) == spec_parse_header(d@),
            (fmt matches Some(f) ==> 1 <= f.channels <= 8 && valid_bit_depth(f.bit_depth)),
            fmt_tag() == seq![102u8, 109u8, 116u8, 32u8],
            data_tag() == seq![100u8, 97u8, 116u8, 97u8],
        decreases d.len() - pos,
    {
        if d.len() - pos < 4 {
            return end_of_chunks(fmt);
        }
        let len = le32_after(d, pos, 4);
        let ghost next = pos + 8 + len;
        let fits = (len as u64) + 12 <= (d.len() - pos) as u64;
        if tag_matches(d, pos, 102, 109, 116, 32) {
            match parse_fmt(d, pos, len) {
                Err(e) => {
                    return Err(e);
                },
                Ok(f) => {
                    if fits {
                        pos = pos + 8 + len as usize;
                        fmt = Some(f);
                    } else {
                        return Err(WavError::NoDataChunk);
                    }
                },
            }
        } else if tag_matches(d, pos, 100, 97, 116, 97) {
            match fmt {
                None => {
                    return Err(WavError::NoFmtChunk);
                },
                Some(f) => {
                    proof {
                        assert(1 <= f.channels * (f.bit_depth / 8) <= 32) by (nonlinear_arith)
                            requires
                                1 <= f.channels <= 8,
                                1 <= f.bit_depth / 8 <= 4,
                        ;
                    }
                    return Ok(make_header(f, len));
                },
            }
        } else {
            if fits {
                pos = pos + 8 + len as usize;
            } else {
                return end_of_chunks(fmt);
            }
        }
    }
}

// ---------------------------------------------------------------------------
// Probing
// ---------------------------------------------------------------------------

pub open spec fn dot_wav() -> Seq<char> {
    seq!['.', 'w', 'a', 'v']
}

/// The confidence that a stream is WAV: 95 for the RIFF magic, 60 for a file
/// name of at least four bytes whose lowercase form ends in `.wav`, else 0.
pub open spec fn spec_probe_score(header: Seq<u8>, name_len: int, lowered_name: Seq<char>) -> u8 {
    if header.len() >= 4 && header.subrange(0, 4) == riff_tag() {
        95
    } else if name_len >= 4 && ends_with(lowered_name, dot_wav()) {
        60
    } else {
        0
    }
}

/// The confidence score once the file name has been lowercased.
pub fn probe_score(header: &[u8], name_len: usize, lowered_name: &str) -> (c: u8)
    ensures
        c == spec_probe_score(header@, name_len as int, lowered_name@),
{
    proof {
        assert(riff_tag() =~= seq![82u8, 73u8, 70u8, 70u8]);
    }
    if tag_matches(header, 0, 82, 73, 70, 70) {
        95
    } else if name_len >= 4 && ends_with4(lowered_name, '.', 'w', 'a', 'v') {
        60
    } else {
        0
    }
}

/// Unit type of the WAV codec.
#[derive(Debug, Clone, Copy)]
pub struct WavCodec;

impl WavCodec {
    /// How confident the codec is that it can read a stream that starts with
    /// `header` and is named `filename`.
    pub fn probe(&self, header: &[u8], filename: &[u8]) -> (c: u8)
        ensures
            c == spec_probe_score(header@, filename.len() as int, spec_lowered_name(filename@)),
    {
        let lowered = lowered_name(filename);
        probe_score(header, filename.len(), lowered.as_str())
    }

    /// The codec's name.
    pub fn name(&self) -> (r: &'static str)
        ensures
            r@ == seq!['w', 'a', 'v'],
    {
        proof {
            reveal_strlit("wav");
        }
        "wav"
    }

    /// Parses the header and makes the stream state; reading then starts at
    /// `data_start`.
    pub fn open(&self, file: &[u8]) -> (r: Result<WavStream, WavError>)
        ensures
            match r {
                Ok(s) => spec_parse_header(file@) matches Ok(h) && s.header() == h && s.position
                    == 0,
                Err(e) => spec_parse_header(file@) == Err::<WavHeader, WavError>(e),
            },
            r matches Ok(s) ==> s.wf(),
    {
        match parse_header(file) {
            Ok(h) => Ok(WavStream::from_header(h)),
            Err(e) => Err(e),
        }
    }
}

// ---------------------------------------------------------------------------
// Streams: decoding and seeking
// ---------------------------------------------------------------------------

/// Signed value of a little-endian sample of `bit_depth` bits whose bytes are
/// `b0 b1 b2 b3` (unused ones ignored).
pub open spec fn spec_sample(bit_depth: u8, b0: u8, b1: u8, b2: u8, b3: u8) -> int {
    if bit_depth == 8 {
        if b0 < 128 {
            b0 as int
        } else {
            b0 - 256
        }
    } else if bit_depth == 16 {
        let v = le16(b0, b1);
        if v < 0x8000 {
            v
        } else {
            v - 0x1_0000
        }
    } else if bit_depth == 24 {
        let v = b0 + 256 * b1 + 65536 * b2;
        if v < 0x80_0000 {
            v
        } else {
            v - 0x100_0000
        }
    } else if bit_depth == 32 {
        let v = le32(b0, b1, b2, b3);
        if v < 0x8000_0000 {
            v
        } else {
            v - 0x1_0000_0000
        }
    } else {
        0
    }
}

/// The sample that starts at byte `at` of `d`.
pub open spec fn sample_at(d: Seq<u8>, at: int, bit_depth: u8) -> int {
    spec_sample(bit_depth, byte_at(d, at), byte_at(d, at + 1), byte_at(d, at + 2), byte_at(d, at + 3))
}

/// Decodes the sample of `bit_depth` bits that starts at `at`.
pub fn decode_sample(d: &[u8], at: usize, bit_depth: u8) -> (v: i32)
    requires
        at <= d.len(),
    ensures
        v == sample_at(d@, at as int, bit_depth),
{
    let b0 = byte_after(d, at, 0);
    let b1 = byte_after(d, at, 1);
    let b2 = byte_after(d, at, 2);
    let b3 = byte_after(d, at, 3);
    if bit_depth == 8 {
        if b0 < 128 {
            b0 as i32
        } else {
            b0 as i32 - 256
        }
    } else if bit_depth == 16 {
        let v: i32 = b0 as i32 + (b1 as i32) * 256;
        if v < 0x8000 {
            v
        } else {
            v - 0x1_0000
        }
    } else if bit_depth == 24 {
        let v: i32 = b0 as i32 + (b1 as i32) * 256 + (b2 as i32) * 65536;
        if v < 0x80_0000 {
            v
        } else {
            v - 0x100_0000
        }
    } else if bit_depth == 32 {
        let v: i64 = b0 as i64 + (b1 as i64) * 256 + (b2 as i64) * 65536 + (b3 as i64) * 16777216;
        if v < 0x8000_0000 {
            v as i32
        } else {
            (v - 0x1_0000_0000) as i32
        }
    } else {
        0
    }
}


/// The samples of the first `n` frames of `data`, interleaved: sample `c` of
/// frame `k` is decoded from byte `k * frame_bytes + c * sample_bytes`.
pub open spec fn frames_decoded(samples: Seq<i32>, data: Seq<u8>, channels: u8, bit_depth: u8, n: int) -> bool {
    let ch = channels as int;
    let bps = (bit_depth / 8) as int;
    &&& samples.len() == n * ch
    &&& forall|k: int, c: int|
        0 <= k < n && 0 <= c < ch ==> #[trigger] samples[k * ch + c] == sample_at(
            data,
            k * (ch * bps) + c * bps,
            bit_depth,
        )
}

/// Decodes the first `n` whole frames of `data`.
pub fn decode_frames(data: &[u8], channels: u8, bit_depth: u8, n: usize) -> (samples: Vec<i32>)
    requires
        1 <= channels,
        valid_bit_depth(bit_depth),
        n * (channels * (bit_depth / 8)) <= data.len(),
    ensures
        frames_decoded(samples@, data@, channels, bit_depth, n as int),
{
    let ch = channels as usize;
    let bps = (bit_depth / 8) as usize;
    assert(ch * bps <= 255 * 4) by (nonlinear_arith)
        requires
            ch <= 255,
            bps <= 4,
    ;
    let fs = ch * bps;
    let mut samples: Vec<i32> = Vec::new();
    let mut k: usize = 0;
    while k < n
        invariant
            1 <= channels,
            valid_bit_depth(bit_depth),
            ch == channels,
            bps == bit_depth / 8,
                fs == ch * bps,
            n * fs <= data.len(),
            k <= n,
            samples.len() == k * ch,
            forall|k2: int, c: int|
                0 <= k2 < k && 0 <= c < ch ==> #[trigger] samples@[k2 * ch + c] == sample_at(
                    data@,
                    k2 * (fs as int) + c * bps,
                    bit_depth,
                ),
        decreases n - k,
    {
        let mut c: usize = 0;
        while c < ch
            invariant
                1 <= channels,
                valid_bit_depth(bit_depth),
                ch == channels,
                bps == bit_depth / 8,
                fs == ch * bps,
                n * fs <= data.len(),
                k < n,
                c <= ch,
                samples.len() == k * ch + c,
                forall|k2: int, c2: int|
                    0 <= k2 < k && 0 <= c2 < ch ==> #[trigger] samples@[k2 * ch + c2]
                        == sample_at(data@, k2 * (fs as int) + c2 * bps, bit_depth),
                forall|c2: int|
                    0 <= c2 < c ==> #[trigger] samples@[k * ch + c2] == sample_at(
                        data@,
                        k * (fs as int) + c2 * bps,
                        bit_depth,
                    ),
            decreases ch - c,
        {
            assert(k * fs + c * bps <= data.len()) by (nonlinear_arith)
                requires
                    k < n,
                    c < ch,
                fs == ch * bps,
                    n * fs <= data.len(),
            ;
            let at = k * fs + c * bps;
            let v = decode_sample(data, at, bit_depth);
            samples.push(v);
            proof {
                assert forall|k2: int, c2: int|
                    0 <= k2 < k && 0 <= c2 < ch implies #[trigger] samples@[k2 * ch + c2]
                    == sample_at(data@, k2 * (fs as int) + c2 * bps, bit_depth) by {
                    assert(0 <= k2 * ch + c2 < k * ch) by (nonlinear_arith)
                        requires
                            0 <= k2 < k,
                            0 <= c2 < ch,
                    ;
                }
            }
            c = c + 1;
        }
        assert forall|k2: int, c2: int|
            0 <= k2 < k + 1 && 0 <= c2 < ch implies #[trigger] samples@[k2 * ch + c2]
            == sample_at(data@, k2 * (fs as int) + c2 * bps, bit_depth) by {
            if k2 == k {
            } else {
                assert(k2 * ch + c2 < k * ch) by (nonlinear_arith)
                    requires
                        k2 < k,
                        c2 < ch,
                ;
            }
        }
        assert((k + 1) * ch == k * ch + ch) by (nonlinear_arith);
        k = k + 1;
    }
    samples
}

/// State of an open WAV stream.
#[derive(Debug, Clone, Copy, PartialEq, Eq, Structural)]
pub struct WavStream {
    pub sample_rate: u32,
    pub channels: u8,
    pub bit_depth: u8,
    pub data_start: u64,
    pub bytes_per_frame: usize,
    pub total_frames: u64,
    /// Frames read or skipped so far.
    pub position: u64,
}

/// Number of frames a read hands out: as many whole frames as `available`
/// bytes hold, no more than `max_frames`, and, when the length is known, no
/// more than remain.
pub open spec fn spec_frames_to_read(s: WavStream, available: int, max_frames: int) -> int {
    let whole = available / (s.bytes_per_frame as int);
    let by_out = if whole < max_frames {
        whole
    } else {
        max_frames
    };
    if s.total_frames > 0 {
        let left = if s.position < s.total_frames {
            s.total_frames - s.position
        } else {
            0
        };
        if left < by_out {
            left
        } else {
            by_out
        }
    } else {
        by_out
    }
}

/// The frame the stream moves to when asked for `frame`: clamped to the last
/// frame when the length is known.
pub open spec fn spec_seek_target(s: WavStream, frame: u64) -> u64 {
    if s.total_frames > 0 {
        let last = (s.total_frames - 1) as u64;
        if frame < last {
            frame
        } else {
            last
        }
    } else {
        frame
    }
}

impl WavStream {
    pub open spec fn wf(self) -> bool {
        &&& 1 <= self.channels <= 8
        &&& valid_bit_depth(self.bit_depth)
        &&& self.bytes_per_frame == self.channels * (self.bit_depth / 8)
    }

    pub open spec fn header(self) -> WavHeader {
        WavHeader {
            sample_rate: self.sample_rate,
            channels: self.channels,
            bit_depth: self.bit_depth,
            data_start: self.data_start,
            bytes_per_frame: self.bytes_per_frame,
            total_frames: self.total_frames,
        }
    }

    pub fn from_header(h: WavHeader) -> (s: WavStream)
        ensures
            s.header() == h,
            s.position == 0,
    {
        WavStream {
            sample_rate: h.sample_rate,
            channels: h.channels,
            bit_depth: h.bit_depth,
            data_start: h.data_start,
            bytes_per_frame: h.bytes_per_frame,
            total_frames: h.total_frames,
            position: 0,
        }
    }

    /// Decodes frames from `data`, the bytes that follow the current read
    /// position, into an output of room for `out_len` samples. Returns the
    /// interleaved samples and advances the position by the frames read.
    pub fn read_frames(&mut self, data: &[u8], out_len: usize) -> (samples: Vec<i32>)
        requires
            old(self).wf(),
            old(self).position + out_len <= u64::MAX,
        ensures
            final(self).wf(),
            ({
                let n = spec_frames_to_read(*old(self), data.len() as int, (out_len as int) / (old(self).channels as int));
                &&& frames_decoded(samples@, data@, old(self).channels, old(self).bit_depth, n)
                &&& *final(self) == (WavStream { position: (old(self).position + n) as u64, ..*old(self) })
            }),
    {
        let ch = self.channels as usize;
        let bps = (self.bit_depth / 8) as usize;
        let fs = self.bytes_per_frame;
        assert(fs >= 1 && fs == ch * bps) by (nonlinear_arith)
            requires
                1 <= ch <= 8,
                1 <= bps <= 4,
                fs == ch * bps,
        ;
        let max_frames = out_len / ch;
        let whole = data.len() / fs;
        let mut n = if whole < max_frames {
            whole
        } else {
            max_frames
        };
        if self.total_frames > 0 {
            let left: u64 = if self.position < self.total_frames {
                self.total_frames - self.position
            } else {
                0
            };
            if left < n as u64 {
                n = left as usize;
            }
        }
        assert(n * fs <= data.len()) by (nonlinear_arith)
            requires
                n <= whole,
                whole == data.len() / fs,
                fs >= 1,
        ;
        let samples = decode_frames(data, self.channels, self.bit_depth, n);
        self.position = self.position + n as u64;
        samples
    }

    /// The frame a seek to `frame` lands on.
    pub fn seek_target(&self, frame: u64) -> (t: u64)
        ensures
            t == spec_seek_target(*self, frame),
    {
        if self.total_frames > 0 {
            let last = self.total_frames - 1;
            if frame < last {
                frame
            } else {
                last
            }
        } else {
            frame
        }
    }

    /// The byte offset of frame `target` in the file.
    pub fn byte_offset(&self, target: u64) -> (off: u64)
        requires
            self.data_start + target * self.bytes_per_frame <= u64::MAX,
        ensures
            off == self.data_start + target * self.bytes_per_frame,
    {
        assert(target * self.bytes_per_frame <= u64::MAX) by (nonlinear_arith)
            requires
                self.data_start + target * self.bytes_per_frame <= u64::MAX,
        ;
        self.data_start + target * self.bytes_per_frame as u64
    }

    /// Decodes from the stream's position in `file`, the whole file: the
    /// bytes from the position's offset on, none when that lies past the end.
    /// `None`, with the stream unchanged, when the offset or the position
    /// after the read would not fit in 64 bits.
    pub fn read_at(&mut self, file: &[u8], out_len: usize) -> (r: Option<Vec<i32>>)
        requires
            old(self).wf(),
        ensures
            ({
                let off = old(self).data_start + old(self).position * old(self).bytes_per_frame;
                match r {
                    None => *final(self) == *old(self) && (off > u64::MAX || old(self).position
                        + out_len > u64::MAX),
                    Some(samples) => {
                        let from = if off < file.len() {
                            off
                        } else {
                            file.len() as int
                        };
                        let rest = file@.subrange(from, file.len() as int);
                        let n = spec_frames_to_read(
                            *old(self),
                            rest.len() as int,
                            (out_len as int) / (old(self).channels as int),
                        );
                        &&& off <= u64::MAX
                        &&& old(self).position + out_len <= u64::MAX
                        &&& frames_decoded(samples@, rest, old(self).channels, old(self).bit_depth, n)
                        &&& *final(self) == (WavStream {
                            position: (old(self).position + n) as u64,
                            ..*old(self)
                        })
                    },
                }
            }),
    {
        let fs = self.bytes_per_frame as u64;
        let off = match self.position.checked_mul(fs) {
            Some(v) => match v.checked_add(self.data_start) {
                Some(o) => o,
                None => {
                    return None;
                },
            },
            None => {
                proof {
                    assert(self.position * fs >= self.position) by (nonlinear_arith)
                        requires
                            fs >= 1,
                    ;
                }
                return None;
            },
        };
        if self.position.checked_add(out_len as u64).is_none() {
            return None;
        }
        let from: usize = if off < file.len() as u64 {
            off as usize
        } else {
            file.len()
        };
        let rest = vstd::slice::slice_subrange(file, from, file.len());
        Some(self.read_frames(rest, out_len))
    }

    /// Records a completed seek to frame `target`.
    pub fn set_position(&mut self, target: u64)
        ensures
            *final(self) == (WavStream { position: target, ..*old(self) }),
    {
        self.position = target;
    }
}

/// The identity of the WAV codec: it claims the `wav` extension and the
/// `RIFF` magic.
#[allow(non_snake_case)]
pub fn WAV_INFO() -> (r: CodecInfo)
    ensures
        r.name@ == seq!['w', 'a', 'v'],
        r.supported_formats@.len() == 1,
        r.supported_formats@[0].extension matches Some(e) && e@ == seq!['w', 'a', 'v'],
        r.supported_formats@[0].magic_bytes matches Some(m) && m@ == riff_tag(),
{
    let formats: &'static [FormatSignature] = &[
        FormatSignature {
            extension: Some("wav"),
            mime_type: Some("audio/wav"),
            magic_bytes: Some(&[82u8, 73u8, 70u8, 70u8]),
            description: "RIFF WAVE PCM audio",
        },
    ];
    proof {
        reveal_strlit("wav");
        assert(formats@.len() == 1);
    }
    CodecInfo::new("wav", formats)
}

/// The WAV decoder's declared needs of its source.
#[derive(Debug, Clone, Copy)]
pub struct WavDecoder;

impl WavDecoder {
    /// The formats a WAV decoder reads: those the WAV codec claims.
    pub fn supported_formats() -> (r: &'static [FormatSignature])
        ensures
            r@.len() == 1,
            r@[0].extension matches Some(e) && e@ == seq!['w', 'a', 'v'],
            r@[0].magic_bytes matches Some(m) && m@ == riff_tag(),
    {
        WAV_INFO().supported_formats
    }

    /// A WAV decoder seeks within its source and needs to know its length.
    pub fn source_requirements() -> (r: SourceRequirements)
        ensures
            r.bits == 3,
    {
        let r = SourceRequirements::SEEKABLE() | SourceRequirements::KNOWN_LENGTH();
        assert(1u8 | 2u8 == 3u8) by (bit_vector);
        r
    }
}

} // verus!
