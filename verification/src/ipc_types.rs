//! Commands and responses of the control interface.
use vstd::prelude::*;
use base64::Engine;
use crate::pcm::SampleSpec;
use crate::state::PlaybackStatus;

verus! {

/// Outcome of a command.
#[derive(Debug, Clone, Copy, PartialEq, Eq, Structural)]
pub enum ResponseStatus {
    /// Shown as `ok`.
    Success,
    Error,
}

/// Error codes returned by command handlers.
#[derive(Debug, Clone, Copy, PartialEq, Eq, Structural)]
pub enum ErrorCode {
    FileNotFound,
    NoTrack,
    NotSupported,
    InvalidPosition,
    CodecLoadFailed,
}

impl ErrorCode {
    pub open spec fn spec_name(self) -> Seq<char> {
        match self {
            ErrorCode::FileNotFound => "FILE_NOT_FOUND"@,
            ErrorCode::NoTrack => "NO_TRACK"@,
            ErrorCode::NotSupported => "NOT_SUPPORTED"@,
            ErrorCode::InvalidPosition => "INVALID_POSITION"@,
            ErrorCode::CodecLoadFailed => "CODEC_LOAD_FAILED"@,
        }
    }

    /// The code's name on the wire.
    pub fn name(self) -> (r: &'static str)
        ensures
            r@ == self.spec_name(),
    {
        match self {
            ErrorCode::FileNotFound => "FILE_NOT_FOUND",
            ErrorCode::NoTrack => "NO_TRACK",
            ErrorCode::NotSupported => "NOT_SUPPORTED",
            ErrorCode::InvalidPosition => "INVALID_POSITION",
            ErrorCode::CodecLoadFailed => "CODEC_LOAD_FAILED",
        }
    }
}

/// Track metadata.
#[derive(Debug, Clone, PartialEq, Eq)]
pub struct TrackInfo {
    pub id: u64,
    pub path: String,
    pub format: String,
    pub duration_ms: u64,
}

/// Status of one stream.
#[derive(Debug, Clone, PartialEq, Eq)]
pub struct StreamStatus {
    pub stream_id: u64,
    pub status: PlaybackStatus,
    pub position_ms: u64,
    pub seekable: bool,
    pub device_lost: bool,
    pub output_spec: Option<SampleSpec>,
    pub track: Option<TrackInfo>,
    pub content_type: Option<String>,
}

/// A codec as listed to clients.
#[derive(Debug, Clone, PartialEq, Eq)]
pub struct CodecDescriptor {
    pub name: String,
    pub formats: Vec<String>,
    pub source: String,
    pub path: Option<String>,
}

/// A command from a client.
#[derive(Debug, Clone, PartialEq, Eq)]
pub enum IpcCommand {
    Play { path: String, stream_id: Option<u64> },
    Pause { stream_id: Option<u64> },
    Resume { stream_id: Option<u64> },
    Seek { position_ms: u64, stream_id: Option<u64> },
    Stop { stream_id: Option<u64> },
    Status { stream_id: Option<u64> },
    ListCodecs,
    LoadCodec { path: String },
    LoadCodecBytes { data: Vec<u8> },
    Cleanup,
    /// Shut down the engine process.
    Shutdown,
}

/// The bytes that standard-alphabet, padded base64 text decodes to, as the
/// `base64` crate's `STANDARD` engine decodes it; none when it refuses the text.
pub uninterp spec fn base64_standard_decoded(text: Seq<char>) -> Option<Seq<u8>>;

/// Calls `base64::engine::general_purpose::STANDARD.decode`; the result is
/// named by [`base64_standard_decoded`]. The error's message is not stated.
#[verifier::external_body]
fn base64_decode(input: &str) -> (r: Result<Vec<u8>, String>)
    ensures
        match r {
            Ok(v) => base64_standard_decoded(input@) == Some(v@),
            Err(_) => base64_standard_decoded(input@) is None,
        },
{
    base64::engine::general_purpose::STANDARD.decode(input).map_err(|e| e.to_string())
}

/// The command to load a codec from base64 text `encoded`.
pub fn load_codec_bytes(encoded: &str) -> (r: Result<IpcCommand, String>)
    ensures
        match r {
            Ok(c) => base64_standard_decoded(encoded@) matches Some(d) && c matches IpcCommand::LoadCodecBytes {
                data,
            } && data@ == d,
            Err(_) => base64_standard_decoded(encoded@) is None,
        },
{
    match base64_decode(encoded) {
        Ok(data) => Ok(IpcCommand::LoadCodecBytes { data }),
        Err(e) => Err(e),
    }
}

/// A response to a client; every field but the status is optional.
#[derive(Debug, Clone, PartialEq, Eq)]
pub struct IpcResponse {
    pub status: ResponseStatus,
    pub state: Option<PlaybackStatus>,
    pub position_ms: Option<u64>,
    pub code: Option<ErrorCode>,
    pub message: Option<String>,
    pub track_id: Option<u64>,
    pub track: Option<TrackInfo>,
    pub codecs: Option<Vec<CodecDescriptor>>,
    pub device_lost: Option<bool>,
    pub removed_files: Option<Vec<String>>,
    pub stream_id: Option<u64>,
    pub content_type: Option<String>,
    pub seekable: Option<bool>,
    pub output_spec: Option<SampleSpec>,
    pub streams: Option<Vec<StreamStatus>>,
}

impl IpcResponse {
    /// No optional field is set.
    pub open spec fn is_bare(self) -> bool {
        &&& self.state is None
        &&& self.position_ms is None
        &&& self.track_id is None
        &&& self.track is None
        &&& self.codecs is None
        &&& self.device_lost is None
        &&& self.removed_files is None
        &&& self.stream_id is None
        &&& self.content_type is None
        &&& self.seekable is None
        &&& self.output_spec is None
        &&& self.streams is None
    }

    /// A success with nothing else set.
    pub fn ok() -> (r: Self)
        ensures
            r.status == ResponseStatus::Success,
            r.is_bare(),
            r.code is None,
            r.message is None,
    {
        IpcResponse {
            status: ResponseStatus::Success,
            state: None,
            position_ms: None,
            code: None,
            message: None,
            track_id: None,
            track: None,
            codecs: None,
            device_lost: None,
            removed_files: None,
            stream_id: None,
            content_type: None,
            seekable: None,
            output_spec: None,
            streams: None,
        }
    }

    /// A failure with its code and message.
    pub fn error(code: ErrorCode, msg: &str) -> (r: Self)
        ensures
            r.status == ResponseStatus::Error,
            r.is_bare(),
            r.code == Some(code),
            r.message matches Some(m) && m@ == msg@,
    {
        IpcResponse {
            status: ResponseStatus::Error,
            state: None,
            position_ms: None,
            code: Some(code),
            message: Some(msg.to_owned()),
            track_id: None,
            track: None,
            codecs: None,
            device_lost: None,
            removed_files: None,
            stream_id: None,
            content_type: None,
            seekable: None,
            output_spec: None,
            streams: None,
        }
    }
}

} // verus!
