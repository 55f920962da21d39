//! The single-stream control protocol kept for older clients.
use vstd::prelude::*;
use crate::error::AroundError;
use crate::types::SampleSpec;

verus! {

/// Playback state of the single stream, as `status` reports it.
#[derive(Debug, Clone, PartialEq, Eq)]
pub struct PlaybackState {
    pub playing: bool,
    pub position_ms: u64,
    pub duration_ms: Option<u64>,
    pub track_path: Option<String>,
    pub format_name: Option<String>,
    pub output_format: Option<SampleSpec>,
    pub seekable: bool,
    pub device_lost: bool,
    pub state: String,
}

impl Default for PlaybackState {
    /// Nothing loaded: not playing, at zero, `stopped`.
    fn default() -> (r: Self)
        ensures
            !r.playing,
            r.position_ms == 0,
            r.duration_ms is None,
            r.track_path is None,
            r.format_name is None,
            r.output_format is None,
            !r.seekable,
            !r.device_lost,
            r.state@ == "stopped"@,
    {
        PlaybackState {
            playing: false,
            position_ms: 0,
            duration_ms: None,
            track_path: None,
            format_name: None,
            output_format: None,
            seekable: false,
            device_lost: false,
            state: String::from_str("stopped"),
        }
    }
}

/// A command of the single-stream protocol.
#[derive(Debug, Clone, PartialEq, Eq)]
pub enum IpcCommand {
    Play { path: String },
    Pause,
    Resume,
    Seek { position_ms: u64 },
    Stop,
    Status,
    ListDecoders,
    LoadDecoder { path: String },
    LoadDecoderBytes { data: String, name: String },
    Cleanup,
}

/// The error code and message a failed decoder load is reported with:
/// `DECODER_LOAD_FAILED` for a codec that could not be loaded, `INTERNAL`
/// otherwise; the message is the error's own.
pub fn map_decoder_error(e: &AroundError) -> (r: (&'static str, String))
    ensures
        r.1@ == e.spec_message(),
        e is CodecLoadFailed ==> r.0@ == "DECODER_LOAD_FAILED"@,
        !(e is CodecLoadFailed) ==> r.0@ == "INTERNAL"@,
{
    match e {
        AroundError::CodecLoadFailed { .. } => ("DECODER_LOAD_FAILED", e.to_string()),
        _ => ("INTERNAL", e.to_string()),
    }
}

} // verus!
