//! The integer side of the filter chain: scoring format pairs, reading the
//! formats a filter declares, sizing workspaces, and laying encoded samples
//! out in bytes.
use vstd::prelude::*;
use crate::audio_buffer::AudioBufferError;
use crate::output_plan::{conversion_loss, spec_conversion_loss};
use crate::pcm::{spec_valid, ByteOrder, PcmEncoding, SampleSpec};
use crate::sdk_filter::{AudioFormatC, AudioFormatListC};
use crate::text::{push_decimal, spec_decimal};
use crate::types::{Interleave, MAX_STREAM_CHANNELS};

verus! {

/// The conversion loss of turning `input` into `output`.
pub fn score_format_pair(input: &SampleSpec, output: &SampleSpec) -> (r: u32)
    ensures
        r == spec_conversion_loss(*input, *output).spec_total(),
{
    conversion_loss(*input, *output).total()
}

/// A filter's name and the formats it declares.
#[derive(Debug, Clone)]
pub struct FilterInfo {
    pub name: String,
    pub formats_in: Vec<SampleSpec>,
    pub formats_out: Vec<SampleSpec>,
}

#[derive(Debug, Clone, PartialEq, Eq)]
pub enum FilterError {
    InputFormat,
    OutputTooSmall { required: usize, available: usize },
    WorkspaceTooSmall { required: usize, available: usize },
    UnsupportedPlanarInput,
    Buffer(AudioBufferError),
}

impl FilterError {
    /// The message shown for this error.
    pub open spec fn spec_message(self) -> Seq<char> {
        match self {
            FilterError::InputFormat => "FilterChain received a non-f32 input"@,
            FilterError::OutputTooSmall { required, available } => "FilterChain output needs "@
                + spec_decimal(required as nat) + " bytes, has "@ + spec_decimal(available as nat),
            FilterError::WorkspaceTooSmall { required, available } => "FilterChain workspace needs "@
                + spec_decimal(required as nat) + " samples, has "@ + spec_decimal(available as nat),
            FilterError::UnsupportedPlanarInput => "planar codec input is not supported yet"@,
            FilterError::Buffer(e) => e.spec_message(),
        }
    }

    pub fn to_string(&self) -> (r: String)
        ensures
            r@ == self.spec_message(),
    {
        match self {
            FilterError::InputFormat => String::from_str("FilterChain received a non-f32 input"),
            FilterError::OutputTooSmall { required, available } => {
                let mut s = String::from_str("FilterChain output needs ");
                push_decimal(&mut s, *required as u64);
                s.append(" bytes, has ");
                push_decimal(&mut s, *available as u64);
                s
            },
            FilterError::WorkspaceTooSmall { required, available } => {
                let mut s = String::from_str("FilterChain workspace needs ");
                push_decimal(&mut s, *required as u64);
                s.append(" samples, has ");
                push_decimal(&mut s, *available as u64);
                s
            },
            FilterError::UnsupportedPlanarInput => String::from_str(
                "planar codec input is not supported yet",
            ),
            FilterError::Buffer(e) => e.to_string(),
        }
    }
}

impl From<AudioBufferError> for FilterError {
    fn from(error: AudioBufferError) -> (r: FilterError) {
        FilterError::Buffer(error)
    }
}

impl vstd::std_specs::convert::FromSpecImpl<AudioBufferError> for FilterError {
    open spec fn obeys_from_spec() -> bool {
        true
    }

    open spec fn from_spec(v: AudioBufferError) -> FilterError {
        FilterError::Buffer(v)
    }
}

// ---------------------------------------------------------------------------
// Declared formats
// ---------------------------------------------------------------------------

pub open spec fn spec_encoding_of(code: u8) -> Option<PcmEncoding> {
    if code == 0 {
        Some(PcmEncoding::I8)
    } else if code == 1 {
        Some(PcmEncoding::I16)
    } else if code == 2 {
        Some(PcmEncoding::I24)
    } else if code == 3 {
        Some(PcmEncoding::I32)
    } else if code == 4 {
        Some(PcmEncoding::I48)
    } else if code == 5 {
        Some(PcmEncoding::I64)
    } else if code == 6 {
        Some(PcmEncoding::U8)
    } else if code == 7 {
        Some(PcmEncoding::U16)
    } else if code == 8 {
        Some(PcmEncoding::U24)
    } else if code == 9 {
        Some(PcmEncoding::U32)
    } else if code == 10 {
        Some(PcmEncoding::U48)
    } else if code == 11 {
        Some(PcmEncoding::U64)
    } else if code == 12 {
        Some(PcmEncoding::F32)
    } else if code == 13 {
        Some(PcmEncoding::F64)
    } else {
        None
    }
}

pub open spec fn spec_interleave_of(code: u8) -> Option<Interleave> {
    if code == 0 {
        Some(Interleave::Interleaved)
    } else if code == 1 {
        Some(Interleave::Planar)
    } else {
        None
    }
}

pub open spec fn spec_byte_order_of(code: u8) -> Option<ByteOrder> {
    if code == 0 {
        Some(ByteOrder::Native)
    } else if code == 1 {
        Some(ByteOrder::Little)
    } else if code == 2 {
        Some(ByteOrder::Big)
    } else {
        None
    }
}

/// The spec an interface format stands for: every code known and the rate and
/// channels valid.
pub open spec fn spec_format_of(f: AudioFormatC) -> Option<SampleSpec> {
    match (spec_encoding_of(f.encoding), spec_interleave_of(f.interleave), spec_byte_order_of(f.byte_order)) {
        (Some(e), Some(i), Some(b)) => {
            if f.sample_rate > 0 && 1 <= f.channels <= MAX_STREAM_CHANNELS {
                Some(
                    SampleSpec {
                        sample_rate: f.sample_rate,
                        channels: f.channels,
                        encoding: e,
                        interleave: i,
                        byte_order: b,
                    },
                )
            } else {
                None
            }
        },
        _ => None,
    }
}

/// The specs of the formats in `s` that stand for one, in order.
pub open spec fn spec_format_list(s: Seq<AudioFormatC>) -> Seq<SampleSpec>
    decreases s.len(),
{
    if s.len() == 0 {
        Seq::empty()
    } else {
        let rest = spec_format_list(s.drop_last());
        match spec_format_of(s.last()) {
            Some(spec) => rest.push(spec),
            None => rest,
        }
    }
}

pub fn encoding_of(code: u8) -> (r: Option<PcmEncoding>)
    ensures
        r == spec_encoding_of(code),
{
    match code {
        0 => Some(PcmEncoding::I8),
        1 => Some(PcmEncoding::I16),
        2 => Some(PcmEncoding::I24),
        3 => Some(PcmEncoding::I32),
        4 => Some(PcmEncoding::I48),
        5 => Some(PcmEncoding::I64),
        6 => Some(PcmEncoding::U8),
        7 => Some(PcmEncoding::U16),
        8 => Some(PcmEncoding::U24),
        9 => Some(PcmEncoding::U32),
        10 => Some(PcmEncoding::U48),
        11 => Some(PcmEncoding::U64),
        12 => Some(PcmEncoding::F32),
        13 => Some(PcmEncoding::F64),
        _ => None,
    }
}

pub fn format_of(f: AudioFormatC) -> (r: Option<SampleSpec>)
    ensures
        r == spec_format_of(f),
        r matches Some(s) ==> spec_valid(s),
{
    let encoding = match encoding_of(f.encoding) {
        Some(e) => e,
        None => {
            return None;
        },
    };
    let interleave = match f.interleave {
        0 => Interleave::Interleaved,
        1 => Interleave::Planar,
        _ => {
            return None;
        },
    };
    let byte_order = match f.byte_order {
        0 => ByteOrder::Native,
        1 => ByteOrder::Little,
        2 => ByteOrder::Big,
        _ => {
            return None;
        },
    };
    match SampleSpec::new(f.sample_rate, f.channels, encoding, interleave, byte_order) {
        Ok(s) => Some(s),
        Err(_) => None,
    }
}

/// The specs a filter's declared format list stands for; formats with unknown
/// codes or invalid parameters are left out.
pub fn format_list(list: AudioFormatListC) -> (r: Vec<SampleSpec>)
    ensures
        r@ == spec_format_list(list.spec_formats()),
{
    let formats = list.as_slice();
    let mut out: Vec<SampleSpec> = Vec::new();
    let mut i: usize = 0;
    while i < formats.len()
        invariant
            formats@ == list.spec_formats(),
            i <= formats@.len(),
            out@ == spec_format_list(formats@.subrange(0, i as int)),
        decreases formats@.len() - i,
    {
        proof {
            assert(formats@.subrange(0, i + 1).drop_last() =~= formats@.subrange(0, i as int));
        }
        match format_of(formats[i]) {
            Some(s) => out.push(s),
            None => {},
        }
        i = i + 1;
    }
    proof {
        assert(formats@.subrange(0, formats@.len() as int) =~= formats@);
    }
    out
}

// ---------------------------------------------------------------------------
// Workspace sizing
// ---------------------------------------------------------------------------

/// Frames the rate conversion may produce from `input_frames`: the input
/// rescaled to the output rate, rounded up, plus two.
pub open spec fn spec_output_frames(input_frames: int, decode: SampleSpec, output: SampleSpec) -> int {
    (input_frames * output.sample_rate + (decode.sample_rate - 1)) / (decode.sample_rate as int) + 2
}

pub open spec fn max1(c: u8) -> int {
    if c == 0 {
        1
    } else {
        c as int
    }
}

/// Samples of processing room and bytes of output room needed for a block of
/// `input_samples` decoded samples.
pub open spec fn spec_workspace(decode: SampleSpec, output: SampleSpec, input_samples: int) -> (int, int) {
    let input_frames = input_samples / max1(decode.channels);
    let out_frames = spec_output_frames(input_frames, decode, output);
    let out_samples = out_frames * max1(output.channels);
    (
        if input_samples < out_samples {
            out_samples
        } else {
            input_samples
        },
        out_frames * output.spec_bytes_per_frame(),
    )
}

/// The room a chain from `decode` to `output` needs for `input_samples`
/// decoded samples: samples of processing room and bytes of output room.
pub fn workspace_requirements(decode: &SampleSpec, output: &SampleSpec, input_samples: usize) -> (r: (
    usize,
    usize,
))
    requires
        decode.sample_rate > 0,
        ({
            let w = spec_workspace(*decode, *output, input_samples as int);
            w.0 <= usize::MAX && w.1 <= usize::MAX
        }),
    ensures
        r.0 == spec_workspace(*decode, *output, input_samples as int).0,
        r.1 == spec_workspace(*decode, *output, input_samples as int).1,
{
    let dch: usize = if decode.channels == 0 {
        1
    } else {
        decode.channels as usize
    };
    let och: usize = if output.channels == 0 {
        1
    } else {
        output.channels as usize
    };
    let input_frames = input_samples / dch;
    let ghost w = spec_workspace(*decode, *output, input_samples as int);
    let ghost of = spec_output_frames(input_frames as int, *decode, *output);
    assert(input_frames * output.sample_rate <= 0xffff_ffff_ffff_ffff * 0xffff_ffff) by (
    nonlinear_arith)
        requires
            input_frames <= 0xffff_ffff_ffff_ffff,
            output.sample_rate <= 0xffff_ffff,
    ;
    let scaled: u128 = input_frames as u128 * output.sample_rate as u128 + (decode.sample_rate
        - 1) as u128;
    let q: u128 = scaled / decode.sample_rate as u128;
    let bpf = output.bytes_per_frame();
    assert(of >= 2 && of * och >= of && of * bpf >= 0) by (nonlinear_arith)
        requires
            of == q + 2,
            q >= 0,
            och >= 1,
            bpf >= 0,
    ;
    assert(of <= usize::MAX) by (nonlinear_arith)
        requires
            of * och <= usize::MAX,
            och >= 1,
            of >= 0,
    ;
    let output_frames: usize = q as usize + 2;
    let output_samples = output_frames * och;
    let output_bytes = output_frames * bpf;
    let room = if input_samples < output_samples {
        output_samples
    } else {
        input_samples
    };
    (room, output_bytes)
}

/// [`workspace_requirements`] for any input: `None` when the decode rate is
/// zero or a size would not fit in `usize`.
pub fn checked_workspace_requirements(decode: &SampleSpec, output: &SampleSpec, input_samples: usize) -> (r:
    Option<(usize, usize)>)
    ensures
        ({
            let w = spec_workspace(*decode, *output, input_samples as int);
            &&& r is Some <==> (decode.sample_rate > 0 && w.0 <= usize::MAX && w.1 <= usize::MAX)
            &&& r matches Some(p) ==> p.0 == w.0 && p.1 == w.1
        }),
{
    if decode.sample_rate == 0 {
        return None;
    }
    let dch: usize = if decode.channels == 0 {
        1
    } else {
        decode.channels as usize
    };
    let och: u128 = if output.channels == 0 {
        1
    } else {
        output.channels as u128
    };
    let input_frames = input_samples / dch;
    let ghost w = spec_workspace(*decode, *output, input_samples as int);
    let ghost of = spec_output_frames(input_frames as int, *decode, *output);
    assert(input_frames * output.sample_rate <= 0xffff_ffff_ffff_ffff * 0xffff_ffff) by (
    nonlinear_arith)
        requires
            input_frames <= 0xffff_ffff_ffff_ffff,
            output.sample_rate <= 0xffff_ffff,
    ;
    let scaled: u128 = input_frames as u128 * output.sample_rate as u128 + (decode.sample_rate
        - 1) as u128;
    let q: u128 = scaled / decode.sample_rate as u128;
    assert(q <= scaled) by (nonlinear_arith)
        requires
            q == (scaled as int) / (decode.sample_rate as int),
            decode.sample_rate >= 1,
            scaled >= 0,
    ;
    let frames: u128 = q + 2;
    let bpf = output.bytes_per_frame() as u128;
    assert(frames * och <= 0x1_0000_0000_0000_0000_0000_0000_0000 * 256 && frames * bpf
        <= 0x1_0000_0000_0000_0000_0000_0000_0000 * 2048) by (nonlinear_arith)
        requires
            frames <= 0x1_0000_0000_0000_0000_0000_0000_0000,
            och <= 255,
            bpf <= 2040,
    ;
    let samples: u128 = frames * och;
    let bytes: u128 = frames * bpf;
    if samples > usize::MAX as u128 || bytes > usize::MAX as u128 {
        return None;
    }
    Some(workspace_requirements(decode, output, input_samples))
}

/// Bytes that `frames` frames of `spec` fill, checked against `available`.
pub fn encoded_len(frames: usize, spec: &SampleSpec, available: usize) -> (r: Result<usize, FilterError>)
    ensures
        frames * spec.spec_bytes_per_frame() > usize::MAX ==> r == Err::<usize, FilterError>(
            FilterError::OutputTooSmall { required: usize::MAX, available },
        ),
        frames * spec.spec_bytes_per_frame() <= usize::MAX ==> (if available < frames
            * spec.spec_bytes_per_frame() {
            r == Err::<usize, FilterError>(
                FilterError::OutputTooSmall {
                    required: (frames * spec.spec_bytes_per_frame()) as usize,
                    available,
                },
            )
        } else {
            r == Ok::<usize, FilterError>((frames * spec.spec_bytes_per_frame()) as usize)
        }),
{
    let bpf = spec.bytes_per_frame();
    let required = match frames.checked_mul(bpf) {
        Some(v) => v,
        None => {
            return Err(FilterError::OutputTooSmall { required: usize::MAX, available });
        },
    };
    if available < required {
        return Err(FilterError::OutputTooSmall { required, available });
    }
    Ok(required)
}

/// Byte offset of sample `channel` of frame `frame` in a block of `frames`
/// frames: channel after channel when planar, frame after frame otherwise.
pub open spec fn spec_sample_offset(spec: SampleSpec, frames: int, frame: int, channel: int) -> int {
    if spec.interleave is Planar {
        (channel * frames + frame) * spec.spec_bytes_per_sample()
    } else {
        (frame * spec.channels + channel) * spec.spec_bytes_per_sample()
    }
}

pub fn sample_offset(spec: &SampleSpec, frames: usize, frame: usize, channel: usize) -> (off: usize)
    requires
        frame < frames,
        channel < spec.channels,
        frames * spec.spec_bytes_per_frame() <= usize::MAX,
    ensures
        off == spec_sample_offset(*spec, frames as int, frame as int, channel as int),
        off + spec.spec_bytes_per_sample() <= frames * spec.spec_bytes_per_frame(),
{
    let bps = spec.bytes_per_sample();
    let ch = spec.channels as usize;
    if spec.interleave == Interleave::Planar {
        assert((channel * frames + frame) * bps + bps <= frames * (ch * bps)) by (nonlinear_arith)
            requires
                frame < frames,
                channel < ch,
                bps >= 1,
        ;
        assert(channel * frames + frame <= frames * ch && frames * ch <= frames * (ch * bps))
            by (nonlinear_arith)
            requires
                frame < frames,
                channel < ch,
                bps >= 1,
        ;
        (channel * frames + frame) * bps
    } else {
        assert((frame * ch + channel) * bps + bps <= frames * (ch * bps)) by (nonlinear_arith)
            requires
                frame < frames,
                channel < ch,
                bps >= 1,
        ;
        assert(frame * ch + channel <= frames * ch && frames * ch <= frames * (ch * bps))
            by (nonlinear_arith)
            requires
                frame < frames,
                channel < ch,
                bps >= 1,
        ;
        (frame * ch + channel) * bps
    }
}

// ---------------------------------------------------------------------------
// Byte layout of integer samples
// ---------------------------------------------------------------------------

pub open spec fn pow256(k: nat) -> nat
    decreases k,
{
    if k == 0 {
        1
    } else {
        256 * pow256((k - 1) as nat)
    }
}

/// Byte `k` of `value`, counting from the least significant.
pub open spec fn le_byte(value: u128, k: nat) -> u8 {
    ((value as nat / pow256(k)) % 256) as u8
}

proof fn lemma_pow256_pos(k: nat)
    ensures
        pow256(k) >= 1,
    decreases k,
{
    if k > 0 {
        lemma_pow256_pos((k - 1) as nat);
    }
}

/// Positions written after `k` bytes: from the front when `little`, from the
/// end of the first `width` otherwise.
pub open spec fn in_written(little: bool, width: int, k: int, j: int) -> bool {
    if little {
        0 <= j < k
    } else {
        width - k <= j < width
    }
}

pub open spec fn expected_byte(value: u128, little: bool, width: int, j: int) -> u8 {
    if little {
        le_byte(value, j as nat)
    } else {
        le_byte(value, (width - 1 - j) as nat)
    }
}

/// Writes the low `width` bytes of `value` to the front of `out`, least
/// significant first when `little`, else most significant first.
pub fn write_integer(value: u128, width: usize, little: bool, out: &mut [u8])
    requires
        width <= 16,
        width <= old(out)@.len(),
    ensures
        final(out)@.len() == old(out)@.len(),
        forall|k: int|
            0 <= k < width ==> #[trigger] final(out)@[k] == if little {
                le_byte(value, k as nat)
            } else {
                le_byte(value, (width - 1 - k) as nat)
            },
        forall|k: int| width <= k < old(out)@.len() ==> #[trigger] final(out)@[k] == old(out)@[k],
{
    let ghost initial = out@;
    let mut rest: u128 = value;
    let mut k: usize = 0;
    assert(pow256(0) == 1);
    assert(value as nat / 1 == value as nat);
    while k < width
        invariant
            width <= 16,
            width <= out@.len(),
            out@.len() == initial.len(),
            k <= width,
            rest as nat == value as nat / pow256(k as nat),
            forall|j: int|
                0 <= j < out@.len() && in_written(little, width as int, k as int, j) ==> #[trigger] out@[j]
                    == expected_byte(value, little, width as int, j),
            forall|j: int|
                0 <= j < out@.len() && !in_written(little, width as int, k as int, j) ==> #[trigger] out@[j]
                    == initial[j],
        decreases width - k,
    {
        let b = (rest % 256) as u8;
        let at = if little {
            k
        } else {
            width - 1 - k
        };
        out[at] = b;
        proof {
            lemma_pow256_pos(k as nat);
            vstd::arithmetic::div_mod::lemma_div_denominator(
                value as int,
                pow256(k as nat) as int,
                256,
            );
            assert(pow256((k + 1) as nat) == pow256(k as nat) * 256);
        }
        rest = rest / 256;
        k = k + 1;
    }
    proof {
        assert forall|k2: int| 0 <= k2 < width implies #[trigger] out@[k2] == if little {
            le_byte(value, k2 as nat)
        } else {
            le_byte(value, (width - 1 - k2) as nat)
        } by {
            assert(in_written(little, width as int, width as int, k2));
        }
    }
}

/// Copies `native`, the bytes of a value in the host's order, to the front of
/// `out` in the order asked for: as they are when the host already uses it,
/// reversed otherwise.
pub fn copy_ordered(native: &[u8], out: &mut [u8], little: bool, host_little: bool)
    requires
        native@.len() <= old(out)@.len(),
    ensures
        final(out)@.len() == old(out)@.len(),
        forall|k: int|
            0 <= k < native@.len() ==> #[trigger] final(out)@[k] == if little == host_little {
                native@[k]
            } else {
                native@[native@.len() - 1 - k]
            },
        forall|k: int|
            native@.len() <= k < old(out)@.len() ==> #[trigger] final(out)@[k] == old(out)@[k],
{
    let n = native.len();
    let same = little == host_little;
    let mut k: usize = 0;
    while k < n
        invariant
            n == native@.len(),
            n <= out@.len(),
            out@.len() == old(out)@.len(),
            same == (little == host_little),
            k <= n,
            forall|j: int|
                0 <= j < k ==> #[trigger] out@[j] == if same {
                    native@[j]
                } else {
                    native@[n - 1 - j]
                },
            forall|j: int| k <= j < out@.len() ==> #[trigger] out@[j] == old(out)@[j],
        decreases n - k,
    {
        out[k] = if same {
            native[k]
        } else {
            native[n - 1 - k]
        };
        k = k + 1;
    }
}

} // verus!
