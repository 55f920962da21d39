//! The protobuf form of commands and responses, and the base-128 varints
//! that frame protobuf messages.
use vstd::prelude::*;
use crate::ipc_types::{
    CodecDescriptor, ErrorCode, IpcCommand, IpcResponse, ResponseStatus, StreamStatus, TrackInfo,
};
use crate::pcm::SampleSpec;
use crate::state::PlaybackStatus;
use crate::types::Interleave;

verus! {

// ---------------------------------------------------------------------------
// Messages
// ---------------------------------------------------------------------------

#[derive(Debug, Clone, PartialEq, Eq)]
pub struct ProtoSampleSpec {
    pub sample_rate: u32,
    pub channels: u32,
    pub encoding: String,
    pub interleave: String,
    pub byte_order: String,
}

#[derive(Debug, Clone, PartialEq, Eq)]
pub struct ProtoTrackInfo {
    pub id: u64,
    pub path: String,
    pub format: String,
    pub duration_ms: u64,
}

#[derive(Debug, Clone, PartialEq, Eq)]
pub struct ProtoCodecDescriptor {
    pub name: String,
    pub formats: Vec<String>,
    pub source: i32,
    pub path: Option<String>,
}

#[derive(Debug, Clone, PartialEq, Eq)]
pub struct ProtoStreamStatus {
    pub stream_id: u64,
    pub status: i32,
    pub position_ms: u64,
    pub seekable: bool,
    pub device_lost: bool,
    pub output_spec: Option<ProtoSampleSpec>,
    pub track: Option<ProtoTrackInfo>,
    pub content_type: Option<String>,
}

#[derive(Debug, Clone, PartialEq, Eq)]
pub struct ProtoIpcResponse {
    pub status: i32,
    pub state: Option<i32>,
    pub position_ms: Option<u64>,
    pub code: Option<String>,
    pub message: Option<String>,
    pub track_id: Option<u64>,
    pub track: Option<ProtoTrackInfo>,
    pub codecs: Vec<ProtoCodecDescriptor>,
    pub device_lost: Option<bool>,
    pub removed_files: Vec<String>,
    pub output_spec: Option<ProtoSampleSpec>,
    pub stream_id: Option<u64>,
    pub seekable: Option<bool>,
    pub content_type: Option<String>,
    pub streams: Vec<ProtoStreamStatus>,
}

/// The command carried by a protobuf command message.
#[derive(Debug, Clone, PartialEq, Eq)]
pub enum ProtoCommand {
    Play { path: String, stream_id: Option<u64> },
    Pause { stream_id: Option<u64> },
    Resume { stream_id: Option<u64> },
    Seek { position_ms: u64, stream_id: Option<u64> },
    Stop { stream_id: Option<u64> },
    Status { stream_id: Option<u64> },
    ListCodecs,
    LoadCodec { path: String },
    LoadCodecBytes { data: Vec<u8> },
    Cleanup,
    Shutdown,
}

// ---------------------------------------------------------------------------
// Conversions
// ---------------------------------------------------------------------------

/// The command a protobuf command stands for: field for field.
pub fn proto_command_to_ipc(c: ProtoCommand) -> (r: IpcCommand)
    ensures
        r == (match c {
            ProtoCommand::Play { path, stream_id } => IpcCommand::Play { path, stream_id },
            ProtoCommand::Pause { stream_id } => IpcCommand::Pause { stream_id },
            ProtoCommand::Resume { stream_id } => IpcCommand::Resume { stream_id },
            ProtoCommand::Seek { position_ms, stream_id } => IpcCommand::Seek { position_ms, stream_id },
            ProtoCommand::Stop { stream_id } => IpcCommand::Stop { stream_id },
            ProtoCommand::Status { stream_id } => IpcCommand::Status { stream_id },
            ProtoCommand::ListCodecs => IpcCommand::ListCodecs,
            ProtoCommand::LoadCodec { path } => IpcCommand::LoadCodec { path },
            ProtoCommand::LoadCodecBytes { data } => IpcCommand::LoadCodecBytes { data },
            ProtoCommand::Cleanup => IpcCommand::Cleanup,
            ProtoCommand::Shutdown => IpcCommand::Shutdown,
        }),
{
    match c {
        ProtoCommand::Play { path, stream_id } => IpcCommand::Play { path, stream_id },
        ProtoCommand::Pause { stream_id } => IpcCommand::Pause { stream_id },
        ProtoCommand::Resume { stream_id } => IpcCommand::Resume { stream_id },
        ProtoCommand::Seek { position_ms, stream_id } => IpcCommand::Seek { position_ms, stream_id },
        ProtoCommand::Stop { stream_id } => IpcCommand::Stop { stream_id },
        ProtoCommand::Status { stream_id } => IpcCommand::Status { stream_id },
        ProtoCommand::ListCodecs => IpcCommand::ListCodecs,
        ProtoCommand::LoadCodec { path } => IpcCommand::LoadCodec { path },
        ProtoCommand::LoadCodecBytes { data } => IpcCommand::LoadCodecBytes { data },
        ProtoCommand::Cleanup => IpcCommand::Cleanup,
        ProtoCommand::Shutdown => IpcCommand::Shutdown,
    }
}

/// The protobuf number of a playback status.
pub fn playback_status_to_proto(s: PlaybackStatus) -> (r: i32)
    ensures
        r == s.spec_code(),
{
    s.code() as i32
}

/// Why a protobuf status number was refused.
#[derive(Debug, Clone, Copy, PartialEq, Eq, Structural)]
pub struct UnknownStatus {
    pub value: i32,
}

impl UnknownStatus {
    /// The message shown for this error: the number, with a minus sign when
    /// negative.
    pub open spec fn spec_message(self) -> Seq<char> {
        "unknown PlaybackStatus: "@ + if self.value < 0 {
            "-"@ + crate::text::spec_decimal((0 - self.value) as nat)
        } else {
            crate::text::spec_decimal(self.value as nat)
        }
    }

    pub fn to_string(&self) -> (r: String)
        ensures
            r@ == self.spec_message(),
    {
        let mut s = String::from_str("unknown PlaybackStatus: ");
        if self.value < 0 {
            s.append("-");
            crate::text::push_decimal(&mut s, (0i64 - self.value as i64) as u64);
        } else {
            crate::text::push_decimal(&mut s, self.value as u64);
        }
        s
    }
}

/// The playback status a protobuf number stands for.
pub fn proto_playback_status_from_i32(v: i32) -> (r: Result<PlaybackStatus, UnknownStatus>)
    ensures
        0 <= v <= 4 ==> r == Ok::<PlaybackStatus, UnknownStatus>(
            PlaybackStatus::spec_from_code(v as u8),
        ),
        !(0 <= v <= 4) ==> r == Err::<PlaybackStatus, UnknownStatus>(UnknownStatus { value: v }),
{
    if 0 <= v && v <= 4 {
        Ok(PlaybackStatus::from_code(v as u8))
    } else {
        Err(UnknownStatus { value: v })
    }
}

pub open spec fn spec_codec_source(s: Seq<char>) -> i32 {
    if s == "builtin"@ {
        0
    } else if s == "extension"@ {
        1
    } else {
        2
    }
}

/// The protobuf number of a codec's origin: built in, extension, or other.
pub fn codec_source_to_proto(s: &str) -> (r: i32)
    ensures
        r == spec_codec_source(s@),
{
    if crate::text::same_text(s, "builtin") {
        0
    } else if crate::text::same_text(s, "extension") {
        1
    } else {
        2
    }
}

/// The name of an error code on the wire.
pub fn error_code_to_proto(c: ErrorCode) -> (r: String)
    ensures
        r@ == c.spec_name(),
{
    String::from_str(c.name())
}

pub open spec fn spec_interleave_name(i: Interleave) -> Seq<char> {
    match i {
        Interleave::Interleaved => "Interleaved"@,
        Interleave::Planar => "Planar"@,
    }
}

fn interleave_name(i: Interleave) -> (r: &'static str)
    ensures
        r@ == spec_interleave_name(i),
{
    match i {
        Interleave::Interleaved => "Interleaved",
        Interleave::Planar => "Planar",
    }
}

/// A spec in protobuf form: the numbers as they are, the enums by name.
pub open spec fn proto_spec_matches(p: ProtoSampleSpec, s: SampleSpec) -> bool {
    &&& p.sample_rate == s.sample_rate
    &&& p.channels == s.channels as u32
    &&& p.encoding@ == s.encoding.spec_name()
    &&& p.interleave@ == spec_interleave_name(s.interleave)
    &&& p.byte_order@ == s.byte_order.spec_name()
}

pub fn sample_spec_to_proto(spec: &SampleSpec) -> (r: ProtoSampleSpec)
    ensures
        proto_spec_matches(r, *spec),
{
    ProtoSampleSpec {
        sample_rate: spec.sample_rate,
        channels: spec.channels as u32,
        encoding: String::from_str(spec.encoding.name()),
        interleave: String::from_str(interleave_name(spec.interleave)),
        byte_order: String::from_str(spec.byte_order.name()),
    }
}

pub open spec fn opt_spec_matches(p: Option<ProtoSampleSpec>, s: Option<SampleSpec>) -> bool {
    match (p, s) {
        (Some(a), Some(b)) => proto_spec_matches(a, b),
        (None, None) => true,
        _ => false,
    }
}

fn opt_spec_to_proto(s: Option<SampleSpec>) -> (r: Option<ProtoSampleSpec>)
    ensures
        opt_spec_matches(r, s),
{
    match s {
        Some(spec) => Some(sample_spec_to_proto(&spec)),
        None => None,
    }
}

pub open spec fn spec_track_to_proto(t: TrackInfo) -> ProtoTrackInfo {
    ProtoTrackInfo { id: t.id, path: t.path, format: t.format, duration_ms: t.duration_ms }
}

pub open spec fn spec_opt_track(t: Option<TrackInfo>) -> Option<ProtoTrackInfo> {
    match t {
        Some(x) => Some(spec_track_to_proto(x)),
        None => None,
    }
}

fn track_to_proto(t: Option<TrackInfo>) -> (r: Option<ProtoTrackInfo>)
    ensures
        r == spec_opt_track(t),
{
    match t {
        Some(x) => Some(ProtoTrackInfo { id: x.id, path: x.path, format: x.format, duration_ms: x.duration_ms }),
        None => None,
    }
}

/// A codec descriptor in protobuf form: its origin as a number.
pub open spec fn codec_matches(p: ProtoCodecDescriptor, d: CodecDescriptor) -> bool {
    &&& p.name == d.name
    &&& p.formats == d.formats
    &&& p.source == spec_codec_source(d.source@)
    &&& p.path == d.path
}

/// A stream status in protobuf form.
pub open spec fn stream_matches(p: ProtoStreamStatus, s: StreamStatus) -> bool {
    &&& p.stream_id == s.stream_id
    &&& p.status == s.status.spec_code()
    &&& p.position_ms == s.position_ms
    &&& p.seekable == s.seekable
    &&& p.device_lost == s.device_lost
    &&& opt_spec_matches(p.output_spec, s.output_spec)
    &&& p.track == spec_opt_track(s.track)
    &&& p.content_type == s.content_type
}

fn codecs_to_proto(ds: Vec<CodecDescriptor>) -> (r: Vec<ProtoCodecDescriptor>)
    ensures
        r@.len() == ds@.len(),
        forall|i: int| 0 <= i < ds@.len() ==> codec_matches(#[trigger] r@[i], ds@[i]),
{
    let mut out: Vec<ProtoCodecDescriptor> = Vec::new();
    let mut rest = ds;
    let ghost all = rest@;
    let mut reversed: Vec<CodecDescriptor> = Vec::new();
    while rest.len() > 0
        invariant
            reversed@.len() + rest@.len() == all.len(),
            forall|i: int| 0 <= i < rest@.len() ==> rest@[i] == all[i],
            forall|i: int| 0 <= i < reversed@.len() ==> reversed@[i] == all[all.len() - 1 - i],
        decreases rest@.len(),
    {
        let d = rest.pop().unwrap();
        reversed.push(d);
    }
    while reversed.len() > 0
        invariant
            out@.len() + reversed@.len() == all.len(),
            forall|i: int| 0 <= i < reversed@.len() ==> reversed@[i] == all[all.len() - 1 - i],
            forall|i: int| 0 <= i < out@.len() ==> codec_matches(#[trigger] out@[i], all[i]),
        decreases reversed@.len(),
    {
        let ghost k = out@.len();
        let d = reversed.pop().unwrap();
        assert(d == all[k as int]);
        let source = codec_source_to_proto(d.source.as_str());
        out.push(ProtoCodecDescriptor { name: d.name, formats: d.formats, source, path: d.path });
    }
    out
}

fn streams_to_proto(ss: Vec<StreamStatus>) -> (r: Vec<ProtoStreamStatus>)
    ensures
        r@.len() == ss@.len(),
        forall|i: int| 0 <= i < ss@.len() ==> stream_matches(#[trigger] r@[i], ss@[i]),
{
    let mut out: Vec<ProtoStreamStatus> = Vec::new();
    let mut rest = ss;
    let ghost all = rest@;
    let mut reversed: Vec<StreamStatus> = Vec::new();
    while rest.len() > 0
        invariant
            reversed@.len() + rest@.len() == all.len(),
            forall|i: int| 0 <= i < rest@.len() ==> rest@[i] == all[i],
            forall|i: int| 0 <= i < reversed@.len() ==> reversed@[i] == all[all.len() - 1 - i],
        decreases rest@.len(),
    {
        let d = rest.pop().unwrap();
        reversed.push(d);
    }
    while reversed.len() > 0
        invariant
            out@.len() + reversed@.len() == all.len(),
            forall|i: int| 0 <= i < reversed@.len() ==> reversed@[i] == all[all.len() - 1 - i],
            forall|i: int| 0 <= i < out@.len() ==> stream_matches(#[trigger] out@[i], all[i]),
        decreases reversed@.len(),
    {
        let ghost k = out@.len();
        let s = reversed.pop().unwrap();
        assert(s == all[k as int]);
        let output_spec = opt_spec_to_proto(s.output_spec);
        let track = track_to_proto(s.track);
        out.push(
            ProtoStreamStatus {
                stream_id: s.stream_id,
                status: playback_status_to_proto(s.status),
                position_ms: s.position_ms,
                seekable: s.seekable,
                device_lost: s.device_lost,
                output_spec,
                track,
                content_type: s.content_type,
            },
        );
    }
    out
}

/// A response in protobuf form: statuses and codes by number or name, absent
/// lists as empty ones, every other field as it is.
pub fn ipc_response_to_proto(resp: IpcResponse) -> (r: ProtoIpcResponse)
    ensures
        r.status == (if resp.status is Success {
            0i32
        } else {
            1i32
        }),
        r.state == (match resp.state {
            Some(s) => Some(s.spec_code() as i32),
            None => None,
        }),
        r.position_ms == resp.position_ms,
        match (r.code, resp.code) {
            (Some(a), Some(b)) => a@ == b.spec_name(),
            (None, None) => true,
            _ => false,
        },
        r.message == resp.message,
        r.track_id == resp.track_id,
        r.track == spec_opt_track(resp.track),
        match resp.codecs {
            Some(ds) => r.codecs@.len() == ds@.len() && forall|i: int|
                0 <= i < ds@.len() ==> codec_matches(#[trigger] r.codecs@[i], ds@[i]),
            None => r.codecs@.len() == 0,
        },
        r.device_lost == resp.device_lost,
        match resp.removed_files {
            Some(f) => r.removed_files == f,
            None => r.removed_files@.len() == 0,
        },
        opt_spec_matches(r.output_spec, resp.output_spec),
        r.stream_id == resp.stream_id,
        r.seekable == resp.seekable,
        r.content_type == resp.content_type,
        match resp.streams {
            Some(ss) => r.streams@.len() == ss@.len() && forall|i: int|
                0 <= i < ss@.len() ==> stream_matches(#[trigger] r.streams@[i], ss@[i]),
            None => r.streams@.len() == 0,
        },
{
    let status: i32 = match resp.status {
        ResponseStatus::Success => 0,
        ResponseStatus::Error => 1,
    };
    let state = match resp.state {
        Some(s) => Some(playback_status_to_proto(s)),
        None => None,
    };
    let code = match resp.code {
        Some(c) => Some(error_code_to_proto(c)),
        None => None,
    };
    let codecs = match resp.codecs {
        Some(ds) => codecs_to_proto(ds),
        None => Vec::new(),
    };
    let removed_files = match resp.removed_files {
        Some(f) => f,
        None => Vec::new(),
    };
    let streams = match resp.streams {
        Some(ss) => streams_to_proto(ss),
        None => Vec::new(),
    };
    ProtoIpcResponse {
        status,
        state,
        position_ms: resp.position_ms,
        code,
        message: resp.message,
        track_id: resp.track_id,
        track: track_to_proto(resp.track),
        codecs,
        device_lost: resp.device_lost,
        removed_files,
        output_spec: opt_spec_to_proto(resp.output_spec),
        stream_id: resp.stream_id,
        seekable: resp.seekable,
        content_type: resp.content_type,
        streams,
    }
}

// ---------------------------------------------------------------------------
// Varints
// ---------------------------------------------------------------------------

/// Base-128 little-endian encoding of `v`: seven bits per byte, the high bit
/// set on every byte but the last.
pub open spec fn spec_varint(v: nat) -> Seq<u8>
    decreases v,
{
    if v < 128 {
        seq![v as u8]
    } else {
        seq![(v % 128 + 128) as u8] + spec_varint(v / 128)
    }
}

pub open spec fn two64() -> int {
    0x1_0000_0000_0000_0000
}

/// Decoding from byte `i`, where the next seven bits are worth `mult` and
/// `acc` holds the value so far. Bits past the 64th are dropped, and an
/// eleventh byte is refused.
pub open spec fn spec_decode_from(buf: Seq<u8>, i: int, mult: int, acc: int) -> Option<(u64, usize)>
    decreases buf.len() - i,
{
    if i < 0 || i >= buf.len() {
        None
    } else {
        let b = buf[i];
        let acc2 = acc + (b % 128) * mult % two64();
        if b < 128 {
            Some((acc2 as u64, (i + 1) as usize))
        } else if mult * 128 >= two64() {
            None
        } else {
            spec_decode_from(buf, i + 1, mult * 128, acc2)
        }
    }
}

/// The value a varint at the start of `buf` holds and the bytes it takes.
pub open spec fn spec_decode_varint(buf: Seq<u8>) -> Option<(u64, usize)> {
    spec_decode_from(buf, 0, 1, 0)
}

/// Appends the varint of `value` to `buf`.
pub fn encode_varint(value: u64, buf: &mut Vec<u8>)
    ensures
        final(buf)@ == old(buf)@ + spec_varint(value as nat),
    decreases value,
{
    if value < 128 {
        buf.push(value as u8);
        proof {
            assert(spec_varint(value as nat) =~= seq![value as u8]);
        }
    } else {
        buf.push((value % 128 + 128) as u8);
        let ghost mid = buf@;
        encode_varint(value / 128, buf);
        proof {
            assert(spec_varint(value as nat) =~= seq![(value % 128 + 128) as u8] + spec_varint(
                (value / 128) as nat,
            ));
            assert(buf@ =~= old(buf)@ + spec_varint(value as nat));
        }
    }
}

/// The weights of the seven-bit groups of a u64: 2 to the power 0, 7, ..., 56, 63.
pub open spec fn group_weight(m: int) -> bool {
    m == 1 || m == 0x80 || m == 0x4000 || m == 0x20_0000 || m == 0x1000_0000 || m
        == 0x8_0000_0000 || m == 0x400_0000_0000 || m == 0x2_0000_0000_0000 || m
        == 0x100_0000_0000_0000 || m == 0x8000_0000_0000_0000
}

/// Reads the varint at the start of `buf`: its value and its length, or
/// nothing when it is cut short or longer than ten bytes.
pub fn decode_varint(buf: &[u8]) -> (r: Option<(u64, usize)>)
    ensures
        r == spec_decode_varint(buf@),
{
    let mut value: u64 = 0;
    let mut mult: u64 = 1;
    let mut i: usize = 0;
    while i < buf.len()
        invariant
            i <= buf@.len(),
            group_weight(mult as int),
            value < mult,
            spec_decode_from(buf@, i as int, mult as int, value as int) == spec_decode_varint(buf@),
        decreases buf@.len() - i,
    {
        let b = buf[i];
        let low = (b % 128) as u64;
        let part: u64 = if mult == 0x8000_0000_0000_0000 {
            assert(low * mult % two64() == (low % 2) * 0x8000_0000_0000_0000) by (nonlinear_arith)
                requires
                    mult == 0x8000_0000_0000_0000,
                    low < 128,
            ;
            (low % 2) * 0x8000_0000_0000_0000
        } else {
            assert(low * mult < 0x8000_0000_0000_0000 && low * mult % two64() == low * mult) by (
            nonlinear_arith)
                requires
                    mult <= 0x100_0000_0000_0000,
                    low < 128,
            ;
            low * mult
        };
        assert(value + part < two64() && (mult < 0x8000_0000_0000_0000 ==> value + part < mult
            * 128)) by (nonlinear_arith)
            requires
                value < mult,
                part == low * mult % two64(),
                mult == 0x8000_0000_0000_0000 ==> part == (low % 2) * 0x8000_0000_0000_0000,
                mult < 0x8000_0000_0000_0000 ==> part == low * mult,
                low < 128,
                mult == 0x8000_0000_0000_0000 || mult <= 0x100_0000_0000_0000,
                mult >= 1,
        ;
        value = value + part;
        if b < 128 {
            return Some((value, i + 1));
        }
        if mult >= 0x200_0000_0000_0000 {
            return None;
        }
        mult = mult * 128;
        i = i + 1;
    }
    None
}

/// Decoding the varint of `v` continued from weight `mult` adds `v * mult`
/// to what was read, whatever follows it.
proof fn lemma_decode_encoded(v: nat, rest: Seq<u8>, prefix: Seq<u8>, mult: int, acc: int)
    requires
        group_weight(mult),
        0 <= acc < mult,
        acc + v * mult < two64(),
    ensures
        spec_decode_from(prefix + spec_varint(v) + rest, prefix.len() as int, mult, acc) == Some(
            ((acc + v * mult) as u64, (prefix.len() + spec_varint(v).len()) as usize),
        ),
    decreases v,
{
    let buf = prefix + spec_varint(v) + rest;
    let i = prefix.len() as int;
    if v < 128 {
        assert(buf[i] == v as u8);
        assert(v * mult % two64() == v * mult) by (nonlinear_arith)
            requires
                0 <= v * mult < two64(),
        ;
    } else {
        let b = (v % 128 + 128) as u8;
        assert(buf[i] == b);
        assert(b % 128 == v % 128);
        assert(mult * 128 <= v * mult && (v % 128) * mult <= v * mult) by (nonlinear_arith)
            requires
                v >= 128,
                mult >= 1,
        ;
        assert((v % 128) * mult % two64() == (v % 128) * mult) by (nonlinear_arith)
            requires
                0 <= (v % 128) * mult < two64(),
        ;
        let acc2 = acc + (v % 128) * mult;
        assert(acc2 < mult * 128) by (nonlinear_arith)
            requires
                acc < mult,
                0 <= v % 128 <= 127,
                mult >= 1,
                acc2 == acc + (v % 128) * mult,
        ;
        assert(acc2 + (v / 128) * (mult * 128) == acc + v * mult) by (nonlinear_arith)
            requires
                acc2 == acc + (v % 128) * mult,
                v == (v / 128) * 128 + v % 128,
        ;
        let prefix2 = prefix.push(b);
        assert(prefix2 + spec_varint(v / 128) + rest =~= buf);
        lemma_decode_encoded(v / 128, rest, prefix2, mult * 128, acc2);
    }
}

/// Reading back a written varint gives the value written and the number of
/// bytes it took, whatever bytes follow it.
pub proof fn law_varint_roundtrip(v: u64, rest: Seq<u8>)
    ensures
        spec_decode_varint(spec_varint(v as nat) + rest) == Some((v, spec_varint(v as nat).len() as usize)),
{
    lemma_decode_encoded(v as nat, rest, Seq::empty(), 1, 0);
    assert(Seq::<u8>::empty() + spec_varint(v as nat) + rest =~= spec_varint(v as nat) + rest);
}

} // verus!
