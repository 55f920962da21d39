//! Raw PCM with a six-byte header: the sample rate (u32, little endian), the
//! channel count and the bits per sample, then interleaved samples.
use vstd::prelude::*;
use crate::codec::CodecInfo;
use crate::source::FormatSignature;
use crate::text::{ends_with, ends_with4, lowered_name, spec_lowered_name};
use crate::wav::{
    decode_frames, frames_decoded, le32, valid_bit_depth,
};

verus! {

/// Length of the header that precedes the samples.
pub const PCM_HEADER_LEN: u64 = 6;

pub open spec fn dot_pcm() -> Seq<char> {
    seq!['.', 'p', 'c', 'm']
}

pub open spec fn header_rate(h: Seq<u8>) -> int {
    le32(h[0], h[1], h[2], h[3])
}

/// The header holds parameters a PCM stream could have.
pub open spec fn plausible_header(h: Seq<u8>) -> bool {
    &&& h.len() >= 6
    &&& 0 < header_rate(h) <= 384000
    &&& 1 <= h[4] <= 8
    &&& valid_bit_depth(h[5])
}

/// The confidence that a stream is raw PCM: 70 for a file name of at least
/// four bytes whose lowercase form ends in `.pcm`, 50 for a plausible header,
/// else 0.
pub open spec fn spec_pcm_probe(header: Seq<u8>, name_len: int, lowered_name: Seq<char>) -> u8 {
    if name_len >= 4 && ends_with(lowered_name, dot_pcm()) {
        70
    } else if plausible_header(header) {
        50
    } else {
        0
    }
}

/// Why a PCM stream could not be opened.
#[derive(Debug, Clone, Copy, PartialEq, Eq, Structural)]
pub enum PcmOpenError {
    /// Fewer than six bytes.
    ShortHeader,
    /// A zero rate, zero channels, or an unsupported sample width.
    InvalidHeader,
}

impl PcmOpenError {
    /// The status code the codec interface reports.
    pub fn code(&self) -> (c: i32)
        ensures
            c == (match self {
                PcmOpenError::ShortHeader => -1int,
                PcmOpenError::InvalidHeader => -2int,
            }),
    {
        match self {
            PcmOpenError::ShortHeader => -1,
            PcmOpenError::InvalidHeader => -2,
        }
    }
}

/// State of an open PCM stream.
#[derive(Debug, Clone, Copy, PartialEq, Eq, Structural)]
pub struct PcmStream {
    pub sample_rate: u32,
    pub channels: u8,
    pub bit_depth: u8,
    /// Whole frames after the header.
    pub total_frames: u64,
    pub position: u64,
}

impl PcmStream {
    pub open spec fn wf(self) -> bool {
        1 <= self.channels && valid_bit_depth(self.bit_depth)
    }

    pub open spec fn frame_bytes(self) -> int {
        self.channels * (self.bit_depth / 8)
    }

    /// The byte offset of frame `target` in the file: after the header,
    /// `target` whole frames in.
    pub fn byte_offset(&self, target: u64) -> (off: u64)
        requires
            self.wf(),
            PCM_HEADER_LEN + target * self.frame_bytes() <= u64::MAX,
        ensures
            off == PCM_HEADER_LEN + target * self.frame_bytes(),
    {
        let ch = self.channels as u64;
        let bps = (self.bit_depth / 8) as u64;
        assert(ch * bps <= 255 * 255) by (nonlinear_arith)
            requires
                ch <= 255,
                bps <= 255,
        ;
        let fs = ch * bps;
        assert(target * fs <= u64::MAX) by (nonlinear_arith)
            requires
                PCM_HEADER_LEN + target * fs <= u64::MAX,
        ;
        PCM_HEADER_LEN + target * fs
    }

    /// Decodes from the stream's position in `file`, the whole file: the
    /// bytes from the position's offset on, none when that lies past the end.
    /// `None`, with the stream unchanged, when the offset or the position
    /// after the read would not fit in 64 bits.
    pub fn read_at(&mut self, file: &[u8], out_len: usize) -> (r: Option<Vec<i32>>)
        requires
            old(self).wf(),
        ensures
            final(self).wf(),
            ({
                let off = PCM_HEADER_LEN + old(self).position * old(self).frame_bytes();
                match r {
                    None => *final(self) == *old(self) && (off > u64::MAX || old(self).position
                        + out_len > u64::MAX),
                    Some(samples) => {
                        let from = if off < file.len() {
                            off
                        } else {
                            file.len() as int
                        };
                        let rest = file@.subrange(from, file.len() as int);
                        let whole = (rest.len() as int) / old(self).frame_bytes();
                        let room = (out_len as int) / (old(self).channels as int);
                        let n = if whole < room {
                            whole
                        } else {
                            room
                        };
                        &&& off <= u64::MAX
                        &&& old(self).position + out_len <= u64::MAX
                        &&& frames_decoded(samples@, rest, old(self).channels, old(self).bit_depth, n)
                        &&& *final(self) == (PcmStream {
                            position: (old(self).position + n) as u64,
                            ..*old(self)
                        })
                    },
                }
            }),
    {
        let ch = self.channels as u64;
        let bps = (self.bit_depth / 8) as u64;
        assert(1 <= ch * bps <= 255 * 255) by (nonlinear_arith)
            requires
                1 <= ch <= 255,
                1 <= bps <= 255,
        ;
        let fs = ch * bps;
        let off = match self.position.checked_mul(fs) {
            Some(v) => match v.checked_add(PCM_HEADER_LEN) {
                Some(o) => o,
                None => {
                    return None;
                },
            },
            None => {
                proof {
                    assert(self.position * fs >= self.position) by (nonlinear_arith)
                        requires
                            fs >= 1,
                    ;
                }
                return None;
            },
        };
        if self.position.checked_add(out_len as u64).is_none() {
            return None;
        }
        let from: usize = if off < file.len() as u64 {
            off as usize
        } else {
            file.len()
        };
        let rest = vstd::slice::slice_subrange(file, from, file.len());
        Some(self.read_frames(rest, out_len))
    }

    /// Decodes as many whole frames of `data` as fit in `out_len` samples.
    pub fn read_frames(&mut self, data: &[u8], out_len: usize) -> (samples: Vec<i32>)
        requires
            old(self).wf(),
            old(self).position + out_len <= u64::MAX,
        ensures
            final(self).wf(),
            ({
                let whole = (data.len() as int) / old(self).frame_bytes();
                let room = (out_len as int) / (old(self).channels as int);
                let n = if whole < room {
                    whole
                } else {
                    room
                };
                &&& frames_decoded(samples@, data@, old(self).channels, old(self).bit_depth, n)
                &&& *final(self) == (PcmStream { position: (old(self).position + n) as u64, ..*old(self) })
            }),
    {
        let ch = self.channels as usize;
        let bps = (self.bit_depth / 8) as usize;
        assert(1 <= ch * bps <= 255 * 4) by (nonlinear_arith)
            requires
                1 <= ch <= 255,
                1 <= bps <= 4,
        ;
        let fs = ch * bps;
        let room = out_len / ch;
        let whole = data.len() / fs;
        let n = if whole < room {
            whole
        } else {
            room
        };
        assert(n * fs <= data.len()) by (nonlinear_arith)
            requires
                n <= whole,
                whole == data.len() / fs,
                fs >= 1,
        ;
        let samples = decode_frames(data, self.channels, self.bit_depth, n);
        self.position = self.position + n as u64;
        samples
    }
}

/// Unit type of the raw PCM codec.
#[derive(Debug, Clone, Copy)]
pub struct PcmCodec;

impl PcmCodec {
    /// How confident the codec is that it can read a stream that starts with
    /// `header` and is named `filename`.
    pub fn probe(&self, header: &[u8], filename: &[u8]) -> (c: u8)
        ensures
            c == spec_pcm_probe(header@, filename.len() as int, spec_lowered_name(filename@)),
    {
        let lowered = lowered_name(filename);
        pcm_probe_score(header, filename.len(), lowered.as_str())
    }

    /// The codec's name.
    pub fn name(&self) -> (r: &'static str)
        ensures
            r@ == seq!['p', 'c', 'm'],
    {
        proof {
            reveal_strlit("pcm");
        }
        "pcm"
    }

    /// Reads the header at the start of `file` and makes the stream state.
    pub fn open(&self, file: &[u8]) -> (r: Result<PcmStream, PcmOpenError>)
        ensures
            file.len() < 6 ==> r == Err::<PcmStream, PcmOpenError>(PcmOpenError::ShortHeader),
            file.len() >= 6 ==> match r {
                Ok(s) => {
                    &&& header_rate(file@) > 0
                    &&& file@[4] > 0
                    &&& valid_bit_depth(file@[5])
                    &&& s.sample_rate == header_rate(file@)
                    &&& s.channels == file@[4]
                    &&& s.bit_depth == file@[5]
                    &&& s.position == 0
                    &&& s.total_frames == (file.len() - 6) / s.frame_bytes()
                    &&& s.wf()
                },
                Err(e) => e == PcmOpenError::InvalidHeader && !(header_rate(file@) > 0 && file@[4]
                    > 0 && valid_bit_depth(file@[5])),
            },
    {
        if file.len() < 6 {
            return Err(PcmOpenError::ShortHeader);
        }
        let sample_rate: u32 = file[0] as u32 + (file[1] as u32) * 256 + (file[2] as u32) * 65536
            + (file[3] as u32) * 16777216;
        let channels = file[4];
        let bit_depth = file[5];
        if sample_rate == 0 || channels == 0 || !(bit_depth == 8 || bit_depth == 16 || bit_depth
            == 24 || bit_depth == 32) {
            return Err(PcmOpenError::InvalidHeader);
        }
        let bps = (bit_depth / 8) as u64;
        assert(1 <= channels * bps <= 255 * 4) by (nonlinear_arith)
            requires
                1 <= channels <= 255,
                1 <= bps <= 4,
        ;
        let fs = channels as u64 * bps;
        let total_frames = (file.len() - 6) as u64 / fs;
        Ok(PcmStream { sample_rate, channels, bit_depth, total_frames, position: 0 })
    }

    /// Raw PCM streams cannot seek: the codec interface reports -1.
    pub fn seek(&self, _frame: u64) -> (r: i64)
        ensures
            r == -1,
    {
        -1
    }
}

/// The identity of the raw PCM codec: it claims the `pcm` extension.
#[allow(non_snake_case)]
pub fn PCM_INFO() -> (r: CodecInfo)
    ensures
        r.name@ == seq!['p', 'c', 'm'],
        r.supported_formats@.len() == 1,
        r.supported_formats@[0].extension matches Some(e) && e@ == seq!['p', 'c', 'm'],
        r.supported_formats@[0].magic_bytes is None,
{
    let formats: &'static [FormatSignature] = &[
        FormatSignature {
            extension: Some("pcm"),
            mime_type: None,
            magic_bytes: None,
            description: "raw PCM with a six-byte header",
        },
    ];
    proof {
        reveal_strlit("pcm");
    }
    CodecInfo::new("pcm", formats)
}

/// The confidence score once the file name has been lowercased.
pub fn pcm_probe_score(header: &[u8], name_len: usize, lowered_name: &str) -> (c: u8)
    ensures
        c == spec_pcm_probe(header@, name_len as int, lowered_name@),
{
    if name_len >= 4 && ends_with4(lowered_name, '.', 'p', 'c', 'm') {
        return 70;
    }
    if header.len() >= 6 {
        let rate: u32 = header[0] as u32 + (header[1] as u32) * 256 + (header[2] as u32) * 65536
            + (header[3] as u32) * 16777216;
        let channels = header[4];
        let bits = header[5];
        if rate > 0 && rate <= 384000 && 1 <= channels && channels <= 8 && (bits == 8 || bits == 16
            || bits == 24 || bits == 32) {
            return 50;
        }
    }
    0
}

} // verus!
