use around::audio_buffer::{normalize_byte_order, normalize_byte_order_on, AudioBufferError, AudioBufferMut, AudioBufferRef};
use around::pcm::{ByteOrder, PcmEncoding, SampleSpec};
use around::types::Interleave;

fn host_little() -> bool {
  u16::from_ne_bytes([1, 0]) == 1
}

#[test]
fn packed_lengths_are_exact() {
  let spec = SampleSpec::interleaved(48000, 2, PcmEncoding::I24).unwrap();
  assert!(AudioBufferRef::new(spec, 3, &[0; 18]).is_ok());
  assert!(AudioBufferRef::new(spec, 3, &[0; 24]).is_err());
}

#[test]
fn byte_order_normalization_reverses_each_sample() {
  let spec = SampleSpec::new(
    48000,
    1,
    PcmEncoding::I16,
    Interleave::Interleaved,
    if host_little() { ByteOrder::Big } else { ByteOrder::Little },
  )
  .unwrap();
  let mut data = [0x12, 0x34, 0x56, 0x78];
  normalize_byte_order(spec, &mut data).unwrap();
  assert_eq!(data, [0x34, 0x12, 0x78, 0x56]);
}

#[test]
fn normalization_of_wide_samples_and_alignment_errors() {
  let spec = SampleSpec::new(48000, 1, PcmEncoding::I24, Interleave::Interleaved, ByteOrder::Big).unwrap();
  let mut data = [1, 2, 3, 4, 5, 6];
  normalize_byte_order_on(spec, &mut data, true).unwrap();
  assert_eq!(data, [3, 2, 1, 6, 5, 4]);
  let mut same = [1, 2, 3];
  normalize_byte_order_on(spec, &mut same, false).unwrap();
  assert_eq!(same, [1, 2, 3]);
  let mut odd = [1, 2, 3, 4];
  assert_eq!(
    normalize_byte_order_on(spec, &mut odd, true),
    Err(AudioBufferError::FrameAlignment { bytes: 4, frame_bytes: 3 })
  );
  assert_eq!(odd, [1, 2, 3, 4]);
  let bytes = SampleSpec::new(48000, 1, PcmEncoding::U8, Interleave::Interleaved, ByteOrder::Big).unwrap();
  let mut u8s = [9, 8, 7];
  normalize_byte_order_on(bytes, &mut u8s, true).unwrap();
  assert_eq!(u8s, [9, 8, 7]);
}

#[test]
fn buffer_views_report_their_layout() {
  let spec = SampleSpec::interleaved(44100, 2, PcmEncoding::I16).unwrap();
  let data = [0u8; 8];
  let view = AudioBufferRef::new(spec, 2, &data).unwrap();
  assert_eq!(view.frames(), 2);
  assert_eq!(view.spec(), spec);
  assert_eq!(view.data().len(), 8);
  assert!(view.validate().is_ok());
  match AudioBufferRef::new(spec, 3, &data) {
    Err(e) => {
      assert_eq!(e, AudioBufferError::LengthMismatch { expected: 12, actual: 8 });
      assert_eq!(e.to_string(), "audio buffer length mismatch: expected 12, got 8");
    }
    Ok(_) => panic!("expected a length mismatch"),
  }
  assert!(matches!(AudioBufferRef::new(spec, usize::MAX, &data), Err(AudioBufferError::Spec(_))));
  let mut out = [0u8; 4];
  let buffer = AudioBufferMut::new(spec, 1, &mut out).unwrap();
  assert_eq!(buffer.frames(), 1);
  assert!(buffer.validate().is_ok());
  assert_eq!(
    AudioBufferError::EncodingMismatch { expected: PcmEncoding::F32, actual: PcmEncoding::I16 }.to_string(),
    "audio buffer encoding mismatch: expected F32, got I16"
  );
}

#[test]
fn normalizing_twice_restores_the_buffer() {
  for order in [ByteOrder::Big, ByteOrder::Little, ByteOrder::Native] {
    for host in [true, false] {
      let spec = SampleSpec::new(48000, 2, PcmEncoding::I24, Interleave::Interleaved, order).unwrap();
      let original = [1u8, 2, 3, 4, 5, 6];
      let mut data = original;
      normalize_byte_order_on(spec, &mut data, host).unwrap();
      normalize_byte_order_on(spec, &mut data, host).unwrap();
      assert_eq!(data, original);
    }
  }
  let spec = SampleSpec::new(48000, 1, PcmEncoding::I16, Interleave::Interleaved, ByteOrder::Native).unwrap();
  let mut data = [9u8, 8, 7];
  assert!(normalize_byte_order(spec, &mut data).is_ok());
  assert_eq!(data, [9, 8, 7]);
}

#[test]
fn host_byte_order_matches_the_machine() {
  assert_eq!(around::pcm::host_is_little_endian(), host_little());
  assert_eq!(ByteOrder::Little.is_native(), host_little());
  assert_eq!(ByteOrder::Big.is_native(), !host_little());
  assert!(ByteOrder::Native.is_native());
}
