//! The responses the control interface gives to each command, built from
//! what the engine reports.
use vstd::prelude::*;
use crate::ipc_types::{CodecDescriptor, ErrorCode, IpcResponse, ResponseStatus, StreamStatus, TrackInfo};
use crate::pcm::SampleSpec;
use crate::pipeline::SeekError;
use crate::state::PlaybackStatus;
use crate::text::{joined, push_decimal, push_hex_padded, spec_decimal};

verus! {

/// The response carries the message `m`.
pub open spec fn has_message(r: IpcResponse, m: Seq<char>) -> bool {
    match r.message {
        Some(x) => x@ == m,
        None => false,
    }
}

/// The response is an error with this code and message.
pub open spec fn is_error(r: IpcResponse, code: ErrorCode, m: Seq<char>) -> bool {
    r.status == ResponseStatus::Error && r.code == Some(code) && has_message(r, m)
}

/// The stream a command is about: the one it names, or else the only active
/// one; without either the answer is an error.
pub fn resolve_stream_id(stream_id: Option<u64>, sole_active: Option<u64>) -> (r: Result<u64, IpcResponse>)
    ensures
        stream_id matches Some(id) ==> r == Ok::<u64, IpcResponse>(id),
        stream_id is None ==> match sole_active {
            Some(id) => r == Ok::<u64, IpcResponse>(id),
            None => (r matches Err(resp) && is_error(resp, ErrorCode::NoTrack, "no active stream"@)),
        },
{
    match stream_id {
        Some(id) => Ok(id),
        None => match sole_active {
            Some(id) => Ok(id),
            None => Err(IpcResponse::error(ErrorCode::NoTrack, "no active stream")),
        },
    }
}

/// The error code and message a refused seek is answered with.
pub open spec fn spec_seek_error(e: SeekError) -> (ErrorCode, Seq<char>) {
    match e {
        SeekError::StreamNotFound => (ErrorCode::NoTrack, "stream not found"@),
        SeekError::NotSeekable => (ErrorCode::NotSupported, "current source does not support seeking"@),
        SeekError::StreamEnded => (
            ErrorCode::InvalidPosition,
            "seek position exceeds track duration or stream ended"@,
        ),
    }
}

/// The answer to a seek: the position reached, or the error for why not.
pub fn seek_response(result: Result<u64, SeekError>) -> (r: IpcResponse)
    ensures
        match result {
            Ok(pos) => r.status == ResponseStatus::Success && r.position_ms == Some(pos),
            Err(e) => is_error(r, spec_seek_error(e).0, spec_seek_error(e).1),
        },
{
    match result {
        Ok(pos) => {
            let mut resp = IpcResponse::ok();
            resp.position_ms = Some(pos);
            resp
        },
        Err(e) => {
            let (code, msg) = match e {
                SeekError::StreamNotFound => (ErrorCode::NoTrack, "stream not found"),
                SeekError::NotSeekable => (ErrorCode::NotSupported, "current source does not support seeking"),
                SeekError::StreamEnded => (
                    ErrorCode::InvalidPosition,
                    "seek position exceeds track duration or stream ended",
                ),
            };
            IpcResponse::error(code, msg)
        },
    }
}

/// The answer to a successful play: the new stream and its track.
pub fn play_response(stream_id: u64, path: String, codec_name: String, duration_ms: Option<u64>, seekable: bool) -> (r:
    IpcResponse)
    ensures
        r.status == ResponseStatus::Success,
        r.stream_id == Some(stream_id),
        r.track_id == Some(stream_id),
        r.track == Some(
            TrackInfo {
                id: stream_id,
                path,
                format: codec_name,
                duration_ms: match duration_ms {
                    Some(d) => d,
                    None => 0,
                },
            },
        ),
        r.seekable == Some(seekable),
{
    let mut resp = IpcResponse::ok();
    resp.stream_id = Some(stream_id);
    resp.track_id = Some(stream_id);
    resp.track = Some(
        TrackInfo {
            id: stream_id,
            path,
            format: codec_name,
            duration_ms: match duration_ms {
                Some(d) => d,
                None => 0,
            },
        },
    );
    resp.seekable = Some(seekable);
    resp
}

/// The answer to a pause or resume of stream: the position when known.
pub fn position_response(position_ms: Option<u64>) -> (r: IpcResponse)
    ensures
        r.status == ResponseStatus::Success,
        r.position_ms == position_ms,
        r.state is None && r.stream_id is None,
{
    let mut resp = IpcResponse::ok();
    resp.position_ms = position_ms;
    resp
}

/// What the engine reports of one stream.
#[derive(Debug, Clone, PartialEq, Eq)]
pub struct StreamSnapshot {
    pub stream_id: u64,
    pub status: PlaybackStatus,
    pub position_ms: u64,
    pub device_lost: bool,
    pub seekable: Option<bool>,
    pub source_path: Option<String>,
    pub codec_name: Option<String>,
    pub duration_ms: Option<u64>,
    pub content_type: Option<String>,
    pub output_spec: Option<SampleSpec>,
}

/// The track of a stream: known when its source path is, with the codec
/// name (`unknown` when missing) and the duration (0 when unknown).
pub open spec fn spec_track(s: StreamSnapshot) -> Option<(u64, Seq<char>, Seq<char>, u64)> {
    match s.source_path {
        Some(p) => Some(
            (
                s.stream_id,
                p@,
                match s.codec_name {
                    Some(c) => c@,
                    None => "unknown"@,
                },
                match s.duration_ms {
                    Some(d) => d,
                    None => 0,
                },
            ),
        ),
        None => None,
    }
}

pub open spec fn track_view(t: Option<TrackInfo>) -> Option<(u64, Seq<char>, Seq<char>, u64)> {
    match t {
        Some(t) => Some((t.id, t.path@, t.format@, t.duration_ms)),
        None => None,
    }
}

fn track_of(s: &StreamSnapshot) -> (r: Option<TrackInfo>)
    ensures
        track_view(r) == spec_track(*s),
{
    match &s.source_path {
        Some(p) => {
            let format = match &s.codec_name {
                Some(c) => c.clone(),
                None => String::from_str("unknown"),
            };
            Some(
                TrackInfo {
                    id: s.stream_id,
                    path: p.clone(),
                    format,
                    duration_ms: match s.duration_ms {
                        Some(d) => d,
                        None => 0,
                    },
                },
            )
        },
        None => None,
    }
}

pub open spec fn opt_text(o: Option<String>) -> Option<Seq<char>> {
    match o {
        Some(s) => Some(s@),
        None => None,
    }
}

/// The answer's per-stream fields match the snapshot.
pub open spec fn reports_stream(r: IpcResponse, s: StreamSnapshot) -> bool {
    &&& r.state == Some(s.status)
    &&& r.position_ms == Some(s.position_ms)
    &&& r.stream_id == Some(s.stream_id)
    &&& r.device_lost == Some(s.device_lost)
    &&& r.seekable == s.seekable
    &&& opt_text(r.content_type) == opt_text(s.content_type)
    &&& track_view(r.track) == spec_track(s)
}

/// The answer sets none of the fields that status answers leave out: no
/// error code or message, no track id, codecs, removed files or output format.
pub open spec fn no_extra_fields(r: IpcResponse) -> bool {
    &&& r.code is None
    &&& r.message is None
    &&& r.track_id is None
    &&& r.codecs is None
    &&& r.removed_files is None
    &&& r.output_spec is None
}

fn report_stream(resp: &mut IpcResponse, s: &StreamSnapshot)
    ensures
        reports_stream(*final(resp), *s),
        final(resp).status == old(resp).status,
        final(resp).streams == old(resp).streams,
        final(resp).code == old(resp).code,
        final(resp).message == old(resp).message,
        final(resp).track_id == old(resp).track_id,
        final(resp).codecs == old(resp).codecs,
        final(resp).removed_files == old(resp).removed_files,
        final(resp).output_spec == old(resp).output_spec,
{
    resp.state = Some(s.status);
    resp.position_ms = Some(s.position_ms);
    resp.stream_id = Some(s.stream_id);
    resp.device_lost = Some(s.device_lost);
    resp.seekable = s.seekable;
    resp.content_type = match &s.content_type {
        Some(c) => Some(c.clone()),
        None => None,
    };
    resp.track = track_of(s);
}

/// The status of one stream, or an error when the engine does not know it.
pub fn status_response_single(snapshot: Option<StreamSnapshot>) -> (r: IpcResponse)
    ensures
        match snapshot {
            Some(s) => r.status == ResponseStatus::Success && reports_stream(r, s) && r.streams is None
                && no_extra_fields(r),
            None => is_error(r, ErrorCode::NoTrack, "stream not found"@),
        },
{
    match snapshot {
        Some(s) => {
            let mut resp = IpcResponse::ok();
            report_stream(&mut resp, &s);
            resp
        },
        None => IpcResponse::error(ErrorCode::NoTrack, "stream not found"),
    }
}

/// A stream's entry in the all-streams status.
pub open spec fn status_matches(st: StreamStatus, s: StreamSnapshot) -> bool {
    &&& st.stream_id == s.stream_id
    &&& st.status == s.status
    &&& st.position_ms == s.position_ms
    &&& st.seekable == (match s.seekable {
        Some(b) => b,
        None => false,
    })
    &&& st.device_lost == s.device_lost
    &&& st.output_spec == s.output_spec
    &&& track_view(st.track) == spec_track(s)
    &&& opt_text(st.content_type) == opt_text(s.content_type)
}

fn stream_status_of(s: &StreamSnapshot) -> (r: StreamStatus)
    ensures
        status_matches(r, *s),
{
    StreamStatus {
        stream_id: s.stream_id,
        status: s.status,
        position_ms: s.position_ms,
        seekable: match s.seekable {
            Some(b) => b,
            None => false,
        },
        device_lost: s.device_lost,
        output_spec: s.output_spec,
        track: track_of(s),
        content_type: match &s.content_type {
            Some(c) => Some(c.clone()),
            None => None,
        },
    }
}

/// The status of every stream, in the order given; when exactly one stream
/// is active its fields are also reported at the top level.
pub fn status_response_all(snapshots: &[StreamSnapshot], sole: Option<usize>) -> (r: IpcResponse)
    requires
        sole matches Some(k) ==> k < snapshots@.len(),
    ensures
        r.status == ResponseStatus::Success,
        r.streams matches Some(v) && v@.len() == snapshots@.len() && forall|i: int|
            0 <= i < snapshots@.len() ==> status_matches(#[trigger] v@[i], snapshots@[i]),
        sole matches Some(k) ==> reports_stream(r, snapshots@[k as int]),
        no_extra_fields(r),
        sole is None ==> r.state is None && r.stream_id is None && r.track is None
            && r.position_ms is None && r.device_lost is None && r.seekable is None
            && r.content_type is None,
{
    let mut streams: Vec<StreamStatus> = Vec::new();
    let mut i: usize = 0;
    while i < snapshots.len()
        invariant
            i <= snapshots@.len(),
            streams@.len() == i,
            forall|j: int| 0 <= j < i ==> status_matches(#[trigger] streams@[j], snapshots@[j]),
        decreases snapshots@.len() - i,
    {
        streams.push(stream_status_of(&snapshots[i]));
        i = i + 1;
    }
    let mut resp = IpcResponse::ok();
    resp.streams = Some(streams);
    match sole {
        Some(k) => {
            report_stream(&mut resp, &snapshots[k]);
        },
        None => {},
    }
    resp
}

/// The answer to a cleanup: the files removed, and a count when there were any.
pub fn cleanup_response(removed: Vec<String>) -> (r: IpcResponse)
    ensures
        r.status == ResponseStatus::Success,
        r.removed_files == Some(removed),
        removed@.len() == 0 ==> r.message is None,
        removed@.len() > 0 ==> has_message(r, "removed "@ + spec_decimal(removed@.len() as nat) + " file(s)"@),
{
    let n = removed.len();
    let mut resp = IpcResponse::ok();
    if n > 0 {
        let mut m = String::from_str("removed ");
        push_decimal(&mut m, n as u64);
        m.append(" file(s)");
        resp.message = Some(m);
    }
    resp.removed_files = Some(removed);
    resp
}

/// `s` starts with `prefix`.
pub open spec fn starts_with(s: Seq<char>, prefix: Seq<char>) -> bool {
    prefix.len() <= s.len() && s.subrange(0, prefix.len() as int) == prefix
}

fn text_starts_with(s: &str, prefix: &str) -> (r: bool)
    ensures
        r == starts_with(s@, prefix@),
{
    let n = prefix.unicode_len();
    if n > s.unicode_len() {
        return false;
    }
    let mut i: usize = 0;
    while i < n
        invariant
            n == prefix@.len(),
            n <= s@.len(),
            i <= n,
            forall|j: int| 0 <= j < i ==> s@[j] == prefix@[j],
        decreases n - i,
    {
        if s.get_char(i) != prefix.get_char(i) {
            assert(s@.subrange(0, n as int)[i as int] != prefix@[i as int]);
            return false;
        }
        i = i + 1;
    }
    assert(s@.subrange(0, n as int) =~= prefix@);
    true
}

/// The prefix of the temporary codec files written by process `pid`.
pub open spec fn spec_own_prefix(pid: u32) -> Seq<char> {
    "around_codec_"@ + spec_decimal(pid as nat) + "_"@
}

/// A temporary codec file left by another process: named `around_codec_…`
/// without this process's own prefix.
pub fn is_stale_temp_file(file_name: &str, pid: u32) -> (r: bool)
    ensures
        r == (starts_with(file_name@, "around_codec_"@) && !starts_with(file_name@, spec_own_prefix(pid))),
{
    let mut own = String::from_str("around_codec_");
    push_decimal(&mut own, pid as u64);
    own.append("_");
    text_starts_with(file_name, "around_codec_") && !text_starts_with(file_name, own.as_str())
}

/// Name of the temporary file a codec given as bytes is written to:
/// `around_codec_PID_HASH.EXT`, the hash as sixteen hex digits.
pub fn temp_codec_file_name(pid: u32, hash: u64, dll_extension: &str) -> (r: String)
    ensures
        r@ == spec_own_prefix(pid) + crate::text::spec_hex_padded(hash as nat, 16) + "."@
            + dll_extension@,
{
    let mut s = String::from_str("around_codec_");
    push_decimal(&mut s, pid as u64);
    s.append("_");
    push_hex_padded(&mut s, hash, 16);
    s.append(".");
    s.append(dll_extension);
    s
}

/// The answer to a loaded codec: one descriptor with no formats.
pub fn codec_loaded_response(name: String, source: &str, path: String) -> (r: IpcResponse)
    ensures
        r.status == ResponseStatus::Success,
        r.codecs matches Some(v) && v@.len() == 1 && v@[0].name == name && v@[0].formats@.len() == 0
            && v@[0].source@ == source@ && v@[0].path == Some(path),
{
    let mut codecs: Vec<CodecDescriptor> = Vec::new();
    codecs.push(CodecDescriptor { name, formats: Vec::new(), source: source.to_owned(), path: Some(path) });
    let mut resp = IpcResponse::ok();
    resp.codecs = Some(codecs);
    resp
}

/// The answer when loading a codec failed.
pub fn codec_load_failed_response(message: &str) -> (r: IpcResponse)
    ensures
        is_error(r, ErrorCode::CodecLoadFailed, message@),
{
    IpcResponse::error(ErrorCode::CodecLoadFailed, message)
}

/// The answer when the file to play does not exist.
pub fn file_not_found_response(path: &str) -> (r: IpcResponse)
    ensures
        is_error(r, ErrorCode::FileNotFound, "No such file: "@ + path@),
{
    let m = joined("No such file: ", path);
    IpcResponse::error(ErrorCode::FileNotFound, m.as_str())
}

} // verus!
