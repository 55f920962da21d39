use around::audio_buffer::AudioBufferError;
use around::filter_chain::{
    checked_workspace_requirements, copy_ordered, encoded_len, format_list, sample_offset, score_format_pair,
    workspace_requirements, write_integer, FilterError,
};
use around::pcm::{ByteOrder, PcmEncoding, SampleSpec};
use around::sdk_filter::{AudioEncodingC, AudioFormatC, AudioFormatListC};
use around::types::Interleave;

fn f32_spec() -> SampleSpec {
    SampleSpec::interleaved(44100, 2, PcmEncoding::F32).unwrap()
}

#[test]
fn scoring_covers_rate_channels_interleave_and_encoding() {
    let input = f32_spec();
    let output =
        SampleSpec::new(48000, 1, PcmEncoding::I16, Interleave::Planar, ByteOrder::Native).unwrap();
    assert!(score_format_pair(&input, &output) > 0);
}

#[test]
fn identical_formats_score_zero() {
    let s = f32_spec();
    assert_eq!(score_format_pair(&s, &s), 0);
}

#[test]
fn workspace_for_rate_conversion() {
    let source = SampleSpec::interleaved(44100, 1, PcmEncoding::F32).unwrap();
    let target = SampleSpec::interleaved(48000, 1, PcmEncoding::F32).unwrap();
    // 997 frames at 44.1 kHz become at most ceil(997 * 48000 / 44100) + 2 = 1088 frames.
    assert_eq!(workspace_requirements(&source, &target, 997), (1088, 1088 * 4));
    let stereo = f32_spec();
    let mono16 = SampleSpec::interleaved(44100, 1, PcmEncoding::I16).unwrap();
    assert_eq!(workspace_requirements(&stereo, &mono16, 8), (8, 6 * 2));
}

#[test]
fn encoded_len_checks_room() {
    let spec = SampleSpec::interleaved(44100, 2, PcmEncoding::I24).unwrap();
    assert_eq!(encoded_len(3, &spec, 18), Ok(18));
    assert_eq!(
        encoded_len(3, &spec, 10),
        Err(FilterError::OutputTooSmall { required: 18, available: 10 })
    );
    assert_eq!(
        encoded_len(usize::MAX, &spec, 10),
        Err(FilterError::OutputTooSmall { required: usize::MAX, available: 10 })
    );
}

#[test]
fn sample_offsets_follow_layout() {
    let planar =
        SampleSpec::new(44100, 2, PcmEncoding::I16, Interleave::Planar, ByteOrder::Native).unwrap();
    assert_eq!(sample_offset(&planar, 2, 1, 1), 6);
    let inter = SampleSpec::interleaved(44100, 2, PcmEncoding::I16).unwrap();
    assert_eq!(sample_offset(&inter, 2, 1, 0), 4);
}

#[test]
fn write_integer_orders_bytes() {
    let mut out = [0xAAu8; 4];
    write_integer(0x12345678, 3, true, &mut out);
    assert_eq!(out, [0x78, 0x56, 0x34, 0xAA]);
    let mut out = [0xAAu8; 4];
    write_integer(0x12345678, 3, false, &mut out);
    assert_eq!(out, [0x34, 0x56, 0x78, 0xAA]);
    let mut out = [0u8; 2];
    write_integer(i16::MAX as u128, 2, 1u16.to_ne_bytes()[0] == 1, &mut out);
    assert_eq!(out, i16::MAX.to_ne_bytes());
}

#[test]
fn copy_ordered_reverses_only_on_mismatch() {
    let mut out = [0u8; 3];
    copy_ordered(&[1, 2], &mut out, true, true);
    assert_eq!(out, [1, 2, 0]);
    copy_ordered(&[1, 2], &mut out, false, true);
    assert_eq!(out, [2, 1, 0]);
}

#[test]
fn format_list_skips_unknown_codes() {
    let mut list = AudioFormatListC::any();
    assert!(format_list(list).is_empty());
    assert!(list.as_slice().is_empty());
    list.formats[0] = AudioFormatC {
        sample_rate: 48000,
        channels: 2,
        encoding: AudioEncodingC::I16.code(),
        interleave: 0,
        byte_order: 1,
    };
    list.formats[1] = AudioFormatC { sample_rate: 48000, channels: 2, encoding: 99, interleave: 0, byte_order: 0 };
    list.formats[2] = AudioFormatC { sample_rate: 0, channels: 2, encoding: 12, interleave: 0, byte_order: 0 };
    list.formats[3] = AudioFormatC { sample_rate: 96000, channels: 1, encoding: 12, interleave: 1, byte_order: 2 };
    list.len = 9;
    let specs = format_list(list);
    assert_eq!(
        specs,
        vec![
            SampleSpec::new(48000, 2, PcmEncoding::I16, Interleave::Interleaved, ByteOrder::Little)
                .unwrap(),
            SampleSpec::new(96000, 1, PcmEncoding::F32, Interleave::Planar, ByteOrder::Big).unwrap(),
        ]
    );
    assert_eq!(AudioEncodingC::from_code(13), Some(AudioEncodingC::F64));
    assert_eq!(AudioEncodingC::from_code(14), None);
}

#[test]
fn filter_error_messages() {
    assert_eq!(FilterError::InputFormat.to_string(), "FilterChain received a non-f32 input");
    assert_eq!(
        FilterError::WorkspaceTooSmall { required: 10, available: 4 }.to_string(),
        "FilterChain workspace needs 10 samples, has 4"
    );
    let e: FilterError = AudioBufferError::InterleaveMismatch.into();
    assert_eq!(e, FilterError::Buffer(AudioBufferError::InterleaveMismatch));
    assert_eq!(e.to_string(), "audio buffer interleave mismatch");
}

#[test]
fn checked_workspace_refuses_zero_rate_and_overflow() {
    let source = SampleSpec::interleaved(44100, 1, PcmEncoding::F32).unwrap();
    let target = SampleSpec::interleaved(48000, 1, PcmEncoding::F32).unwrap();
    assert_eq!(checked_workspace_requirements(&source, &target, 997), Some((1088, 1088 * 4)));
    let mut zero = source;
    zero.sample_rate = 0;
    assert_eq!(checked_workspace_requirements(&zero, &target, 997), None);
    let slow = SampleSpec::interleaved(1, 1, PcmEncoding::F32).unwrap();
    let fast = SampleSpec::interleaved(384000, 8, PcmEncoding::F64).unwrap();
    assert_eq!(checked_workspace_requirements(&slow, &fast, usize::MAX), None);
}
