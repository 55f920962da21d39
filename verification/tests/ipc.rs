use around::ipc_transport::{plan_transports, TransportPlan};
use around::ipc_proto::{
    codec_source_to_proto, decode_varint, encode_varint, error_code_to_proto, ipc_response_to_proto,
    playback_status_to_proto, proto_command_to_ipc, proto_playback_status_from_i32, ProtoCommand,
};
use around::ipc_types::{
    load_codec_bytes, ErrorCode, IpcCommand, IpcResponse, ResponseStatus, StreamStatus,
};
use around::pcm::{PcmEncoding, SampleSpec};
use around::state::PlaybackStatus;

#[test]
fn response_mapping_preserves_content_type_and_output_specs() {
    let spec = SampleSpec::interleaved(48_000, 2, PcmEncoding::F32).unwrap();
    let mut response = IpcResponse::ok();
    response.content_type = Some("audio/wav".into());
    response.output_spec = Some(spec);
    response.streams = Some(vec![StreamStatus {
        stream_id: 7,
        status: PlaybackStatus::Playing,
        position_ms: 12,
        seekable: true,
        device_lost: false,
        output_spec: Some(spec),
        track: None,
        content_type: Some("audio/flac".into()),
    }]);
    let mapped = ipc_response_to_proto(response);
    assert_eq!(mapped.status, 0);
    assert_eq!(mapped.content_type.as_deref(), Some("audio/wav"));
    assert_eq!(mapped.output_spec.as_ref().map(|s| s.sample_rate), Some(48_000));
    assert_eq!(mapped.output_spec.as_ref().map(|s| s.channels), Some(2));
    assert_eq!(mapped.streams.len(), 1);
    assert_eq!(mapped.streams[0].content_type.as_deref(), Some("audio/flac"));
    assert_eq!(mapped.streams[0].output_spec.as_ref().map(|s| s.encoding.as_str()), Some("F32"));
    assert_eq!(mapped.streams[0].output_spec.as_ref().map(|s| s.interleave.as_str()), Some("Interleaved"));
    assert!(mapped.codecs.is_empty());
    assert!(mapped.removed_files.is_empty());
}

#[test]
fn error_responses_carry_code_and_message() {
    let r = IpcResponse::error(ErrorCode::NoTrack, "nothing playing");
    assert_eq!(r.status, ResponseStatus::Error);
    assert_eq!(r.code, Some(ErrorCode::NoTrack));
    assert_eq!(r.message.as_deref(), Some("nothing playing"));
    let p = ipc_response_to_proto(r);
    assert_eq!(p.status, 1);
    assert_eq!(p.code.as_deref(), Some("NO_TRACK"));
    assert_eq!(error_code_to_proto(ErrorCode::CodecLoadFailed), "CODEC_LOAD_FAILED");
}

#[test]
fn status_numbers() {
    assert_eq!(playback_status_to_proto(PlaybackStatus::Buffering), 3);
    assert_eq!(proto_playback_status_from_i32(4), Ok(PlaybackStatus::Error));
    let e = proto_playback_status_from_i32(-7).unwrap_err();
    assert_eq!(e.to_string(), "unknown PlaybackStatus: -7");
    assert_eq!(codec_source_to_proto("builtin"), 0);
    assert_eq!(codec_source_to_proto("extension"), 1);
    assert_eq!(codec_source_to_proto("dynamic"), 2);
}

#[test]
fn proto_commands_map_field_for_field() {
    let c = proto_command_to_ipc(ProtoCommand::Seek { position_ms: 5, stream_id: Some(2) });
    assert_eq!(c, IpcCommand::Seek { position_ms: 5, stream_id: Some(2) });
    assert_eq!(proto_command_to_ipc(ProtoCommand::Shutdown), IpcCommand::Shutdown);
}

#[test]
fn varint_round_trip() {
    for v in [0u64, 1, 127, 128, 300, 16383, 16384, u32::MAX as u64, u64::MAX] {
        let mut buf = vec![0xAA];
        encode_varint(v, &mut buf);
        buf.push(0x99);
        assert_eq!(decode_varint(&buf[1..]), Some((v, buf.len() - 2)));
    }
    let mut buf = Vec::new();
    encode_varint(300, &mut buf);
    assert_eq!(buf, vec![0xAC, 0x02]);
}

#[test]
fn varint_rejects_truncated_and_overlong() {
    assert_eq!(decode_varint(&[0x80, 0x80]), None);
    assert_eq!(decode_varint(&[]), None);
    assert_eq!(decode_varint(&[0xFF; 11]), None);
    let mut ten = vec![0xFF; 9];
    ten.push(0x01);
    assert_eq!(decode_varint(&ten), Some((u64::MAX, 10)));
}

#[test]
fn load_codec_bytes_decodes_base64() {
    assert_eq!(load_codec_bytes("AAEC").unwrap(), IpcCommand::LoadCodecBytes { data: vec![0, 1, 2] });
    assert!(load_codec_bytes("not base64!").is_err());
}

#[test]
fn transport_plan_follows_native_binding_and_configuration() {
    assert_eq!(
        plan_transports(true, None, false),
        TransportPlan { tcp: false, write_port_file: false, remove_stale_port_file: true, udp: false }
    );
    assert_eq!(
        plan_transports(false, None, true),
        TransportPlan { tcp: true, write_port_file: true, remove_stale_port_file: false, udp: true }
    );
    assert_eq!(
        plan_transports(true, Some((false, 9000)), false),
        TransportPlan { tcp: true, write_port_file: false, remove_stale_port_file: false, udp: false }
    );
    assert_eq!(
        plan_transports(true, Some((true, 0)), false),
        TransportPlan { tcp: true, write_port_file: true, remove_stale_port_file: false, udp: false }
    );
    assert!(!plan_transports(false, Some((true, 7000)), false).write_port_file);
}
