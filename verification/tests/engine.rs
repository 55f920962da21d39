use around::error::AroundError;
use around::pipeline::{
    check_seek, decode_failure, final_status, loop_gate, prepared_info, select_codec, sole_active,
    DecodeLoop, LoopAction, LoopGate, SeekError, SeekTarget,
};
use around::state::PlaybackStatus;
use around::stream_state::{AtomicPlaybackStatus, StreamState};
use around::types::Interleave;

#[test]
fn codec_selection_prefers_first_highest_confidence() {
    assert_eq!(select_codec(&[10, 60, 95, 95, 70]), Some(2));
    assert_eq!(select_codec(&[49, 0, 12]), None);
    assert_eq!(select_codec(&[]), None);
    assert_eq!(select_codec(&[50]), Some(0));
}

#[test]
fn prepared_info_checks_rate_and_channels() {
    let info = prepared_info(44100, 2, 44100 * 3).unwrap();
    assert_eq!(info.duration_ms, Some(3000));
    assert_eq!(info.output_format.bit_depth, 16);
    assert_eq!(info.output_format.interleave, Interleave::Interleaved);
    assert_eq!(prepared_info(8000, 1, 0).unwrap().duration_ms, None);
    let e = prepared_info(0, 2, 10).unwrap_err();
    assert_eq!(e.to_string(), "decode error: codec returned sample_rate=0");
    assert!(matches!(prepared_info(8000, 0, 10), Err(AroundError::DecodeError { .. })));
}

#[test]
fn decode_loop_tracks_position_and_failures() {
    let mut l = DecodeLoop::new(1000, 2);
    assert_eq!(l.on_read(200), LoopAction::Continue(100));
    assert_eq!(l.frames_decoded, 100);
    assert_eq!(l.on_read(-1), LoopAction::Retry);
    assert_eq!(l.on_read(-1), LoopAction::Retry);
    assert_eq!(l.on_read(2), LoopAction::Continue(101));
    assert_eq!(l.consecutive_errors, 0);
    assert_eq!(l.on_read(-5), LoopAction::Retry);
    assert_eq!(l.on_read(-5), LoopAction::Retry);
    assert_eq!(l.on_read(-5), LoopAction::Fail(-5));
    let mut m = DecodeLoop::new(44100, 1);
    assert_eq!(m.on_read(0), LoopAction::Finish);
    assert_eq!(m.seek_frame(1500), 66150);
    assert_eq!(m.on_seeked(66150), 1500);
    assert_eq!(final_status(true), PlaybackStatus::Error);
    assert_eq!(final_status(false), PlaybackStatus::Stopped);
    assert_eq!(decode_failure(-3).to_string(), "decode error: decode error: code -3");
}

#[test]
fn seek_requests_are_checked() {
    let t = SeekTarget { seekable: true, duration_ms: Some(1000), status: PlaybackStatus::Playing };
    assert_eq!(check_seek(Some(t), 500), Ok(500));
    assert_eq!(check_seek(Some(t), 1001), Err(SeekError::StreamEnded));
    assert_eq!(check_seek(None, 1), Err(SeekError::StreamNotFound));
    let not = SeekTarget { seekable: false, ..t };
    assert_eq!(check_seek(Some(not), 1), Err(SeekError::NotSeekable));
    let stopped = SeekTarget { status: PlaybackStatus::Stopped, duration_ms: None, ..t };
    assert_eq!(check_seek(Some(stopped), 1), Err(SeekError::StreamEnded));
    assert_eq!(SeekError::NotSeekable.to_string(), "stream is not seekable");
}

#[test]
fn sole_active_stream() {
    assert_eq!(sole_active(&[(1, false), (2, true), (3, false)]), Some(2));
    assert_eq!(sole_active(&[(1, true), (2, true)]), None);
    assert_eq!(sole_active(&[(1, false)]), None);
    assert_eq!(sole_active(&[]), None);
}

#[test]
fn stream_state_stores_status() {
    let s = StreamState::new();
    assert_eq!(s.status(), PlaybackStatus::Stopped);
    s.set_status(PlaybackStatus::Buffering);
    assert_eq!(s.status(), PlaybackStatus::Buffering);
    let a = AtomicPlaybackStatus::new(PlaybackStatus::Paused);
    assert_eq!(a.load(), PlaybackStatus::Paused);
    a.store(PlaybackStatus::Error);
    assert_eq!(a.load(), PlaybackStatus::Error);
}

#[test]
fn loop_gate_checks_cancel_then_device_then_pause() {
    assert_eq!(loop_gate(true, true, true, PlaybackStatus::Paused), LoopGate::Cancelled);
    assert_eq!(
        loop_gate(false, true, true, PlaybackStatus::Playing),
        LoopGate::DeviceLost { reconnect: true }
    );
    assert_eq!(
        loop_gate(false, true, false, PlaybackStatus::Paused),
        LoopGate::DeviceLost { reconnect: false }
    );
    assert_eq!(loop_gate(false, false, false, PlaybackStatus::Paused), LoopGate::Paused);
    assert_eq!(loop_gate(false, false, true, PlaybackStatus::Playing), LoopGate::Read);
}
