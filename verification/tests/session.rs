use around::handlers::{
    cleanup_response, is_stale_temp_file, play_response, resolve_stream_id, seek_response,
    status_response_all, status_response_single, temp_codec_file_name, StreamSnapshot,
};
use around::ipc_types::{ErrorCode, ResponseStatus};
use around::output_plan::{plan_output, DeviceSelector, ModePreference, OutputPreference, RecoveryPolicy};
use around::output_session::{
    binding_gate, check_binding_matches_plan, check_block, check_plan_bindable, null_snapshot,
    BindingStatus, OutputError,
};
use around::pcm::{PcmEncoding, SampleSpec};
use around::pipeline::SeekError;
use around::state::PlaybackStatus;

fn prefs() -> Vec<OutputPreference> {
    vec![OutputPreference {
        selector: DeviceSelector::Exact("null".into()),
        mode: ModePreference::Any,
        recovery: RecoveryPolicy::Stop,
    }]
}

#[test]
fn null_snapshot_plans_the_source_format() {
    let source = SampleSpec::interleaved(44100, 2, PcmEncoding::F32).unwrap();
    let snapshot = null_snapshot(source);
    assert_eq!(snapshot.revision, 1);
    assert_eq!(snapshot.devices[0].id, "null");
    let plan = plan_output(&snapshot, source, &prefs()).unwrap();
    assert_eq!(plan.target_spec, source);
    assert_eq!(check_plan_bindable(&snapshot, &plan), Ok(()));
    assert_eq!(check_binding_matches_plan(source, "null", &plan), Ok(()));
    assert!(check_binding_matches_plan(source, "other", &plan).is_err());
    let mut stale = null_snapshot(source);
    stale.revision = 2;
    let e = check_plan_bindable(&stale, &plan).unwrap_err();
    assert_eq!(e, OutputError::Binding("output capabilities changed since planning".into()));
    assert_eq!(e.to_string(), "output binding failed: output capabilities changed since planning");
    let mut gone = null_snapshot(source);
    gone.devices[0].capabilities.modes[0].id = 9;
    assert_eq!(
        check_plan_bindable(&gone, &plan),
        Err(OutputError::Binding("planned mode disappeared".into()))
    );
    gone.devices[0].id = "x".into();
    assert_eq!(
        check_plan_bindable(&gone, &plan),
        Err(OutputError::Binding("planned device disappeared".into()))
    );
}

#[test]
fn blocks_must_match_an_active_binding() {
    let spec = SampleSpec::interleaved(44100, 2, PcmEncoding::I16).unwrap();
    let other = SampleSpec::interleaved(44100, 2, PcmEncoding::F32).unwrap();
    assert_eq!(check_block(BindingStatus::Active, spec, spec, 8), Ok(()));
    assert_eq!(
        check_block(BindingStatus::Active, spec, other, 8),
        Err(OutputError::Write("output block does not match binding".into()))
    );
    assert!(check_block(BindingStatus::Active, spec, spec, 6).is_err());
    assert_eq!(check_block(BindingStatus::Closed, spec, spec, 8), Err(OutputError::Closed));
    assert_eq!(binding_gate(BindingStatus::Lost), Err(OutputError::Lost));
    assert_eq!(OutputError::Lost.to_string(), "output device is lost");
}

fn snap(id: u64, path: Option<&str>) -> StreamSnapshot {
    StreamSnapshot {
        stream_id: id,
        status: PlaybackStatus::Playing,
        position_ms: 5,
        device_lost: false,
        seekable: Some(true),
        source_path: path.map(|p| p.to_string()),
        codec_name: None,
        duration_ms: Some(10),
        content_type: Some("audio/wav".into()),
        output_spec: None,
    }
}

#[test]
fn status_responses() {
    let single = status_response_single(Some(snap(3, Some("/a.wav"))));
    assert_eq!(single.status, ResponseStatus::Success);
    assert_eq!(single.content_type.as_deref(), Some("audio/wav"));
    assert_eq!(single.track.as_ref().unwrap().format, "unknown");
    let missing = status_response_single(None);
    assert_eq!(missing.code, Some(ErrorCode::NoTrack));
    assert_eq!(missing.message.as_deref(), Some("stream not found"));
    let all = status_response_all(&[snap(1, None), snap(2, Some("/b"))], Some(1));
    let streams = all.streams.as_ref().unwrap();
    assert_eq!(streams.len(), 2);
    assert_eq!(streams[0].content_type.as_deref(), Some("audio/wav"));
    assert!(streams[0].track.is_none());
    assert_eq!(all.stream_id, Some(2));
    let none = status_response_all(&[], None);
    assert_eq!(none.stream_id, None);
}

#[test]
fn command_responses() {
    assert_eq!(resolve_stream_id(Some(4), None).unwrap(), 4);
    assert_eq!(resolve_stream_id(None, Some(7)).unwrap(), 7);
    let err = resolve_stream_id(None, None).unwrap_err();
    assert_eq!(err.message.as_deref(), Some("no active stream"));
    let r = seek_response(Err(SeekError::NotSeekable));
    assert_eq!(r.code, Some(ErrorCode::NotSupported));
    assert_eq!(r.message.as_deref(), Some("current source does not support seeking"));
    assert_eq!(seek_response(Ok(9)).position_ms, Some(9));
    let p = play_response(1, "/x.wav".into(), "wav".into(), None, true);
    assert_eq!(p.track.as_ref().unwrap().duration_ms, 0);
    let c = cleanup_response(vec!["a".into(), "b".into()]);
    assert_eq!(c.message.as_deref(), Some("removed 2 file(s)"));
    assert_eq!(cleanup_response(vec![]).message, None);
}

#[test]
fn temp_files_are_named_and_recognised() {
    let name = temp_codec_file_name(42, 0xab, "so");
    assert_eq!(name, "around_codec_42_00000000000000ab.so");
    assert!(!is_stale_temp_file(&name, 42));
    assert!(is_stale_temp_file(&name, 43));
    assert!(!is_stale_temp_file("other.so", 43));
}

#[test]
fn status_answers_set_no_extra_fields() {
    let single = status_response_single(Some(snap(3, Some("/a.wav"))));
    assert_eq!(single.code, None);
    assert_eq!(single.message, None);
    assert!(single.output_spec.is_none());
    assert!(single.track_id.is_none() && single.codecs.is_none() && single.removed_files.is_none());
    assert_eq!(single.position_ms, Some(5));
    let all = status_response_all(&[snap(1, None)], None);
    assert_eq!(all.code, None);
    assert!(all.output_spec.is_none());
    assert_eq!(all.position_ms, None);
    assert_eq!(all.seekable, None);
}
