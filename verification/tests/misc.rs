use around::audio_sink::NullSink;
use around::error::AroundError;
use around::extensions::{
    check_not_loaded, codec_name_from_bytes, formats_from_bytes, is_library_extension,
    temp_library_name, test_entry_for, DecoderInfo,
};
use around::ipc_legacy::{map_decoder_error, PlaybackState};
use around::ipc_transport::{
    classify_datagram, classify_line, DatagramReader, DatagramStep, IpcAddr, IpcWire, LineStep,
};
use around::platform::AudioOutput;
use around::types::SampleSpec;

#[test]
fn decoder_info_clone_works() {
    let info = DecoderInfo {
        name: "test".into(),
        formats: vec!["wav".into()],
        source: "built-in".into(),
        path: None,
    };
    let info2 = info.clone();
    assert_eq!(info.name, info2.name);
}

#[test]
fn extension_reports() {
    assert_eq!(codec_name_from_bytes(b"mp3"), "mp3");
    assert_eq!(codec_name_from_bytes(b"\xff"), "unknown");
    assert_eq!(formats_from_bytes(b"mp3\0\0mp2\0"), vec!["mp3".to_string(), "mp2".to_string()]);
    assert!(formats_from_bytes(b"").is_empty());
    assert!(is_library_extension("dylib"));
    assert!(!is_library_extension("txt"));
    let loaded = vec!["a".to_string()];
    assert_eq!(check_not_loaded(&loaded, "b", "/p"), Ok(()));
    let e = check_not_loaded(&loaded, "a", "/p").unwrap_err();
    assert_eq!(e.to_string(), "codec load failed for '/p': codec 'a' already loaded");
    assert_eq!(temp_library_name("x", "so"), "around_decoder_x.so");
    assert_eq!(test_entry_for(0).unwrap().id, 42);
    assert!(test_entry_for(1).is_none());
}

#[test]
fn transport_helpers() {
    assert_eq!(IpcAddr::default_local(true).display(), "/tmp/around.sock");
    assert_eq!(IpcAddr::default_local(false).display(), "127.0.0.1:0");
    assert_eq!(IpcAddr::Tcp { host: "h".into(), port: 80 }.display(), "h:80");
    assert_eq!(classify_line(0, 0, false).0, LineStep::Closed);
    assert_eq!(classify_line(0, 70000, false).0, LineStep::TooLong);
    assert_eq!(classify_line(3, 1, true), (LineStep::Skip, 4));
    assert_eq!(classify_line(16, 1, true).0, LineStep::TooManyBlank);
    assert_eq!(classify_line(2, 5, false).0, LineStep::Parse);
    assert_eq!(classify_datagram(70000), DatagramStep::Drop);
    assert_eq!(classify_datagram(600), DatagramStep::HandleLarge);
    assert_eq!(classify_datagram(20), DatagramStep::Handle);
    let mut r = DatagramReader::new(vec![1, 2, 3]);
    assert_eq!(r.read(2), vec![1, 2]);
    assert_eq!(r.read(5), vec![3]);
    assert!(r.read(5).is_empty());
    assert_eq!(IpcWire::select(true), IpcWire::Json);
    assert_eq!(IpcWire::select(false), IpcWire::Proto);
}

#[test]
fn legacy_state_and_errors() {
    let s = PlaybackState::default();
    assert_eq!(s.state, "stopped");
    assert!(!s.playing);
    let (code, msg) = map_decoder_error(&AroundError::CodecLoadFailed { path: None, reason: "x".into() });
    assert_eq!(code, "DECODER_LOAD_FAILED");
    assert_eq!(msg, "codec load failed: x");
    assert_eq!(map_decoder_error(&AroundError::NoTrack).0, "INTERNAL");
}

#[test]
fn sinks_and_outputs() {
    let sink = NullSink::new(48000, 2);
    assert_eq!(sink.sample_rate(), 48000);
    assert_eq!(sink.channels(), 2);
    let spec = SampleSpec::interleaved(44100, 2, 16).unwrap();
    assert!(AudioOutput::new(spec).is_ok());
    assert_eq!(AudioOutput::default_device(), None);
}
