use around::error::AroundError;
use around::state::PlaybackStatus;

#[test]
fn status_codes_round_trip() {
    for s in [
        PlaybackStatus::Playing,
        PlaybackStatus::Paused,
        PlaybackStatus::Stopped,
        PlaybackStatus::Buffering,
        PlaybackStatus::Error,
    ] {
        assert_eq!(PlaybackStatus::from_code(s.code()), s);
    }
    assert_eq!(PlaybackStatus::from_code(200), PlaybackStatus::Stopped);
    assert_eq!(PlaybackStatus::Buffering.code(), 3);
    assert_eq!(PlaybackStatus::Error.name(), "error");
}

#[test]
fn error_display_file_not_found() {
    let err = AroundError::FileNotFound { path: "/tmp/x.wav".into() };
    assert_eq!(err.to_string(), "file not found: /tmp/x.wav");
}

#[test]
fn error_display_unsupported_format() {
    let err = AroundError::UnsupportedFormat { format: Some("flac".into()), reason: "no codec available".into() };
    assert_eq!(err.to_string(), "unsupported format 'flac': no codec available");
    let err = AroundError::UnsupportedFormat { format: None, reason: "unknown container".into() };
    assert_eq!(err.to_string(), "unsupported format: unknown container");
}

#[test]
fn error_display_other_variants() {
    assert_eq!(AroundError::DecodeError { message: "corrupt frame".into() }.to_string(), "decode error: corrupt frame");
    assert_eq!(
        AroundError::SourceIncompatible { source: "http://x".into(), required: "seekable".into() }.to_string(),
        "source 'http://x' is incompatible: requires seekable"
    );
    assert_eq!(AroundError::NoTrack.to_string(), "no track loaded");
    assert_eq!(
        AroundError::CodecLoadFailed { path: Some("libfoo.so".into()), reason: "symbol not found".into() }.to_string(),
        "codec load failed for 'libfoo.so': symbol not found"
    );
    assert_eq!(
        AroundError::CodecLoadFailed { path: None, reason: "no suitable decoder".into() }.to_string(),
        "codec load failed: no suitable decoder"
    );
    assert_eq!(AroundError::Internal { message: "unexpected null".into() }.to_string(), "internal error: unexpected null");
    assert_eq!(AroundError::SourceAlreadyConsumed { source: "file".into() }.to_string(), "source 'file' already consumed");
    assert_eq!(
        AroundError::InvalidPosition { position_ms: 5000, duration_ms: Some(3000) }.to_string(),
        "invalid position 5000ms (duration: 3000ms)"
    );
    assert_eq!(
        AroundError::InvalidPosition { position_ms: 9999, duration_ms: None }.to_string(),
        "invalid position 9999ms (no duration available)"
    );
    assert_eq!(
        AroundError::CodecNotSupported { codec: "aac".into(), reason: "license required".into() }.to_string(),
        "codec 'aac' not supported: license required"
    );
}

#[test]
fn strings_become_internal_errors() {
    let e: AroundError = "boom".into();
    assert_eq!(e, AroundError::Internal { message: "boom".into() });
    let e: AroundError = String::from("bang").into();
    assert_eq!(e.to_string(), "internal error: bang");
}

fn shown(err: AroundError) -> String {
    let msg = err.to_string();
    assert!(!msg.is_empty());
    msg
}

#[test]
fn error_display_decode_error() {
    let msg = shown(AroundError::DecodeError { message: "corrupt frame".into() });
    assert!(msg.contains("decode error"));
}

#[test]
fn error_display_source_incompatible() {
    let msg = shown(AroundError::SourceIncompatible {
        source: "http://example.com/stream".into(),
        required: "seekable".into(),
    });
    assert!(msg.contains("incompatible"));
}

#[test]
fn error_display_no_track() {
    let msg = shown(AroundError::NoTrack);
    assert!(msg.contains("no track"));
}

#[test]
fn error_display_codec_load_failed() {
    let msg = shown(AroundError::CodecLoadFailed {
        path: Some("libfoo.so".into()),
        reason: "symbol not found".into(),
    });
    assert!(msg.contains("codec load failed"));
}

#[test]
fn error_display_internal() {
    let msg = shown(AroundError::Internal { message: "unexpected null".into() });
    assert!(msg.contains("internal error"));
}

#[test]
fn error_display_source_already_consumed() {
    let msg = shown(AroundError::SourceAlreadyConsumed { source: "file".into() });
    assert!(msg.contains("already consumed"));
}

#[test]
fn error_display_invalid_position() {
    let msg = shown(AroundError::InvalidPosition { position_ms: 5000, duration_ms: Some(3000) });
    assert!(msg.contains("invalid position"));
}

#[test]
fn error_display_codec_not_supported() {
    let msg = shown(AroundError::CodecNotSupported {
        codec: "aac".into(),
        reason: "license required".into(),
    });
    assert!(msg.contains("not supported"));
}

#[test]
fn error_display_unsupported_format_no_name() {
    let msg = shown(AroundError::UnsupportedFormat {
        format: None,
        reason: "unknown container".into(),
    });
    assert!(msg.contains("unsupported format"));
}

#[test]
fn error_display_codec_load_failed_no_path() {
    let msg = shown(AroundError::CodecLoadFailed { path: None, reason: "no suitable decoder".into() });
    assert!(msg.contains("codec load failed"));
}

#[test]
fn error_display_invalid_position_no_duration() {
    let msg = shown(AroundError::InvalidPosition { position_ms: 9999, duration_ms: None });
    assert!(msg.contains("invalid position"));
}
