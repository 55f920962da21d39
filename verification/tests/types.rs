use around::types::PlanarBuffer;
use around::types::{ContentType, Interleave, SampleSpec};

#[test]
fn interleaved_accepts_standard_params() {
  let spec = SampleSpec::interleaved(44100, 2, 16);
  assert!(spec.is_ok());
  let spec = spec.unwrap();
  assert_eq!(spec.sample_rate, 44100);
  assert_eq!(spec.channels, 2);
  assert_eq!(spec.bit_depth, 16);
  assert_eq!(spec.interleave, Interleave::Interleaved);
}

#[test]
fn planar_accepts_standard_params() {
  let spec = SampleSpec::new(44100, 2, 24, Interleave::Planar);
  assert!(spec.is_ok());
  let spec = spec.unwrap();
  assert_eq!(spec.interleave, Interleave::Planar);
}

#[test]
fn sample_spec_rejects_zero_sample_rate() {
  let err = SampleSpec::interleaved(0, 2, 16).unwrap_err();
  assert!(!err.is_empty());
}

#[test]
fn sample_spec_rejects_zero_channels() {
  let err = SampleSpec::interleaved(44100, 0, 16).unwrap_err();
  assert!(!err.is_empty());
}

#[test]
fn sample_spec_rejects_channels_above_max() {
  let err = SampleSpec::interleaved(44100, 33, 16).unwrap_err();
  assert!(!err.is_empty());
}

#[test]
fn sample_spec_accepts_minimum_sample_rate() {
  let spec = SampleSpec::interleaved(1, 2, 16);
  assert!(spec.is_ok());
}

#[test]
fn sample_spec_accepts_minimum_channels() {
  let spec = SampleSpec::interleaved(44100, 1, 16);
  assert!(spec.is_ok());
}

#[test]
fn sample_spec_accepts_maximum_channels() {
  let spec = SampleSpec::interleaved(44100, 32, 16);
  assert!(spec.is_ok());
}

#[test]
fn content_type_display_music() {
  let ct = ContentType::new(ContentType::MUSIC);
  assert_eq!(ct.to_string(), "music");
}

#[test]
fn content_type_display_podcast() {
  let ct = ContentType::new(ContentType::PODCAST);
  assert_eq!(ct.to_string(), "podcast");
}

#[test]
fn content_type_display_audiobook() {
  let ct = ContentType::new(ContentType::AUDIOBOOK);
  assert_eq!(ct.to_string(), "audiobook");
}

#[test]
fn content_type_display_radio() {
  let ct = ContentType::new(ContentType::RADIO);
  assert_eq!(ct.to_string(), "radio");
}

#[test]
fn content_type_display_live_stream() {
  let ct = ContentType::new(ContentType::LIVE_STREAM);
  assert_eq!(ct.to_string(), "live_stream");
}

#[test]
fn content_type_display_ambient() {
  let ct = ContentType::new(ContentType::AMBIENT);
  assert_eq!(ct.to_string(), "ambient");
}

#[test]
fn content_type_from_str() {
  let ct = ContentType::from("podcast");
  assert_eq!(ct.0, "podcast");
}

#[test]
fn content_type_from_string() {
  let ct = ContentType::from(String::from("radio"));
  assert_eq!(ct.0, "radio");
}

#[test]
fn content_type_as_str() {
  let ct = ContentType::new("music");
  assert_eq!(ct.as_str(), "music");
}

#[test]
fn planar_buffer_round_trips_interleaved_samples() {
    let input = [1.0f32, 10.0, 2.0, 20.0, 3.0, 30.0];
    let mut planar = PlanarBuffer::<f32>::new(2, 3);
    planar.fill_from_interleaved(&input);
    assert_eq!(planar.channel(0), &[1.0, 2.0, 3.0]);
    assert_eq!(planar.channel(1), &[10.0, 20.0, 30.0]);
    let mut output = [0.0f32; 6];
    planar.write_interleaved(&mut output);
    assert_eq!(output, input);
}

#[test]
fn planar_buffer_channel_mut_updates_only_selected_channel() {
    let mut planar = PlanarBuffer::<f32>::new(2, 2);
    planar.channel_mut(1).copy_from_slice(&[0.25, 0.5]);
    assert_eq!(planar.channel(0), &[0.0, 0.0]);
    assert_eq!(planar.channel(1), &[0.25, 0.5]);
    assert_eq!(planar.channels(), 2);
    assert_eq!(planar.frames(), 2);
    assert_eq!(planar.len(), 4);
    assert!(!planar.is_empty());
}

#[test]
fn planar_buffer_zero_frames_is_empty() {
    let planar = PlanarBuffer::<f32>::new(2, 0);
    assert!(planar.is_empty());
    assert_eq!(planar.channel(0), &[] as &[f32]);
}

#[test]
fn planar_round_trip_leaves_tail_of_output() {
    let mut planar = PlanarBuffer::<i32>::new(3, 2);
    planar.fill_from_interleaved(&[1, 2, 3, 4, 5, 6]);
    assert_eq!(planar.channel(0), &[1, 4]);
    assert_eq!(planar.channel(2), &[3, 6]);
    let mut out = [9i32; 8];
    planar.write_interleaved(&mut out);
    assert_eq!(out, [1, 2, 3, 4, 5, 6, 9, 9]);
}

#[test]
fn sample_spec_refusals_name_the_parameter() {
  assert_eq!(SampleSpec::interleaved(0, 2, 16).unwrap_err(), "sample_rate must be > 0");
  assert_eq!(SampleSpec::interleaved(0, 0, 16).unwrap_err(), "sample_rate must be > 0");
  assert_eq!(SampleSpec::interleaved(44100, 0, 16).unwrap_err(), "channels must be in 1..=32");
  assert_eq!(
    SampleSpec::new(44100, 33, 16, Interleave::Planar).unwrap_err(),
    "channels must be in 1..=32"
  );
}
