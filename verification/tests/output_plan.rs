use around::output_plan::{
  conversion_loss, plan_output, DeviceSelector, DeviceSnapshot, ModePreference,
  OutputCapabilities, OutputCategory, OutputDevice, OutputMode, OutputPreference, RecoveryPolicy,
  SampleRateRange, compare_plan, PlanError,
};
use around::pcm::{ByteOrder, PcmEncoding, SampleSpec};
use around::types::Interleave;

fn device(id: &str, priority: i16, mode: OutputMode) -> OutputDevice {
  OutputDevice {
    id: id.into(),
    name: id.into(),
    category: OutputCategory::Other,
    priority,
    capabilities: OutputCapabilities { modes: vec![mode] },
  }
}

fn mode(id: u32, rate: u32, encoding: PcmEncoding) -> OutputMode {
  OutputMode {
    id,
    channels: 2,
    encoding,
    rates: SampleRateRange { min: rate, max: rate },
    default_rate: rate,
    is_default: true,
    quality_rank: 1,
  }
}

fn any() -> OutputPreference {
  OutputPreference {
    selector: DeviceSelector::Any,
    mode: ModePreference::Any,
    recovery: RecoveryPolicy::ContinueOnFallback,
  }
}

#[test]
fn preference_rank_beats_conversion_loss() {
  let snapshot = DeviceSnapshot {
    revision: 1,
    devices: vec![
      device("a", 0, mode(1, 44100, PcmEncoding::F32)),
      device("b", 0, mode(1, 48000, PcmEncoding::F32)),
    ],
  };
  let first = OutputPreference {
    selector: DeviceSelector::Exact("a".into()),
    ..any()
  };
  let plan = plan_output(
    &snapshot,
    SampleSpec::interleaved(48000, 2, PcmEncoding::F32).unwrap(),
    &[first, any()],
  )
  .unwrap();
  assert_eq!(plan.device_id, "a");
  assert_eq!(plan.preference_index, 0);
}

#[test]
fn priority_beats_conversion_loss_within_preference() {
  let snapshot = DeviceSnapshot {
    revision: 1,
    devices: vec![
      device("a", 2, mode(1, 44100, PcmEncoding::F32)),
      device("b", 1, mode(1, 48000, PcmEncoding::F32)),
    ],
  };
  let plan = plan_output(
    &snapshot,
    SampleSpec::interleaved(48000, 2, PcmEncoding::F32).unwrap(),
    &[any()],
  )
  .unwrap();
  assert_eq!(plan.device_id, "a");
}

#[test]
fn exact_preference_rejects_wrong_mode() {
  let snapshot = DeviceSnapshot {
    revision: 1,
    devices: vec![device("a", 0, mode(1, 44100, PcmEncoding::F32))],
  };
  let preference = OutputPreference {
    selector: DeviceSelector::Any,
    mode: ModePreference::Exact {
      rate: 48000,
      encoding: PcmEncoding::F32,
      channels: 2,
    },
    recovery: RecoveryPolicy::Stop,
  };
  assert!(plan_output(
    &snapshot,
    SampleSpec::interleaved(44100, 2, PcmEncoding::F32).unwrap(),
    &[preference],
  )
  .is_err());
}

#[test]
fn mode_accepts_only_exact_native_interleaved_spec() {
  let mode = mode(1, 48000, PcmEncoding::F32);
  assert!(mode.accepts(SampleSpec::interleaved(48000, 2, PcmEncoding::F32).unwrap()));
  assert!(!mode.accepts(
    SampleSpec::new(48000, 2, PcmEncoding::F32, Interleave::Planar, ByteOrder::Native).unwrap()
  ));
}

#[test]
fn byte_order_loss_is_scored() {
  let input = SampleSpec::new(48000, 2, PcmEncoding::I16, Interleave::Interleaved, ByteOrder::Little).unwrap();
  let output = SampleSpec::new(48000, 2, PcmEncoding::I16, Interleave::Interleaved, ByteOrder::Big).unwrap();
  assert_eq!(conversion_loss(input, output).byte_order, 1);
}

#[test]
fn conversion_loss_exact_values() {
  let input = SampleSpec::interleaved(48000, 2, PcmEncoding::F32).unwrap();
  let output = SampleSpec::new(44100, 1, PcmEncoding::I16, Interleave::Planar, ByteOrder::Big).unwrap();
  let loss = conversion_loss(input, output);
  assert_eq!(loss.rate, 390);
  assert_eq!(loss.channels, 80);
  assert_eq!(loss.interleave, 1);
  assert_eq!(loss.encoding, 36);
  assert_eq!(loss.byte_order, 1);
  assert_eq!(loss.total(), 508);
  let up = conversion_loss(output, input);
  assert_eq!(up.rate, 39);
  assert_eq!(up.channels, 5);
  assert_eq!(conversion_loss(input, input).total(), 0);
}

#[test]
fn candidates_are_deduplicated_and_in_range() {
  let range = SampleRateRange::new(44100, 96000).unwrap();
  assert_eq!(range.candidates(48000, Some(88200), 48000), vec![48000, 88200, 44100, 96000]);
  assert_eq!(range.candidates(8000, None, 200000), vec![44100, 96000]);
  assert!(SampleRateRange::new(0, 10).is_err());
  assert!(SampleRateRange::new(10, 5).is_err());
}

#[test]
fn snapshot_validation_rejects_unsorted_and_empty_ids() {
  let unsorted = DeviceSnapshot {
    revision: 1,
    devices: vec![
      device("b", 0, mode(1, 44100, PcmEncoding::F32)),
      device("a", 0, mode(1, 44100, PcmEncoding::F32)),
    ],
  };
  assert!(matches!(unsorted.validate(), Err(PlanError::InvalidCapabilities(_))));
  let empty = DeviceSnapshot { revision: 1, devices: vec![device("", 0, mode(1, 44100, PcmEncoding::F32))] };
  assert!(empty.validate().is_err());
  let mut bad_mode = mode(7, 44100, PcmEncoding::F32);
  bad_mode.channels = 0;
  let bad = DeviceSnapshot { revision: 1, devices: vec![device("x", 0, bad_mode)] };
  match bad.validate() {
    Err(PlanError::InvalidCapabilities(message)) => assert_eq!(message, "device x has invalid mode 7"),
    _ => panic!("expected invalid capabilities"),
  }
  let ok = DeviceSnapshot {
    revision: 1,
    devices: vec![
      device("a", 0, mode(1, 44100, PcmEncoding::F32)),
      device("b", 0, mode(1, 44100, PcmEncoding::F32)),
    ],
  };
  assert!(ok.validate().is_ok());
}

#[test]
fn planner_errors() {
  let snapshot = DeviceSnapshot { revision: 1, devices: vec![] };
  let source = SampleSpec::interleaved(48000, 2, PcmEncoding::F32).unwrap();
  assert!(matches!(plan_output(&snapshot, source, &[]), Err(PlanError::InvalidPreference(_))));
  assert!(matches!(plan_output(&snapshot, source, &[any()]), Err(PlanError::NoDevice(_))));
  let mut wide = mode(1, 48000, PcmEncoding::F32);
  wide.channels = 300;
  let snapshot = DeviceSnapshot { revision: 1, devices: vec![device("a", 0, wide)] };
  assert_eq!(
    plan_output(&snapshot, source, &[any()]).err(),
    Some(PlanError::UnsupportedChannels { channels: 300 })
  );
}

#[test]
fn plan_prefers_source_rate_and_ordering_is_consistent() {
  let wide = OutputMode {
    id: 3,
    channels: 2,
    encoding: PcmEncoding::I16,
    rates: SampleRateRange { min: 44100, max: 96000 },
    default_rate: 48000,
    is_default: true,
    quality_rank: 1,
  };
  let snapshot = DeviceSnapshot { revision: 9, devices: vec![device("dev", 0, wide.clone())] };
  let source = SampleSpec::interleaved(44100, 2, PcmEncoding::F32).unwrap();
  let plan = plan_output(&snapshot, source, &[any()]).unwrap();
  assert_eq!(plan.target_spec.sample_rate, 44100);
  assert_eq!(plan.snapshot_revision, 9);
  assert_eq!(plan.mode_id, 3);
  assert_eq!(compare_plan(&plan, &plan), std::cmp::Ordering::Equal);
  let worse = plan_output(
    &snapshot,
    source,
    &[OutputPreference { mode: ModePreference::Rate(96000), ..any() }],
  )
  .unwrap();
  assert_eq!(worse.target_spec.sample_rate, 44100);
  let mut other = worse.clone();
  other.preference_index = 1;
  assert_eq!(compare_plan(&plan, &other), std::cmp::Ordering::Less);
  assert_eq!(compare_plan(&other, &plan), std::cmp::Ordering::Greater);
}

#[test]
fn mode_spec_at_checks_rate() {
  let m = mode(4, 48000, PcmEncoding::I24);
  let spec = m.spec_at(48000).unwrap();
  assert_eq!(spec.encoding, PcmEncoding::I24);
  assert_eq!(spec.channels, 2);
  match m.spec_at(44100) {
    Err(PlanError::NoMode(message)) => assert_eq!(message, "mode 4 does not accept 44100 Hz"),
    _ => panic!("expected no mode"),
  }
  assert_eq!(PlanError::UnsupportedChannels { channels: 40 }.to_string(), "unsupported channels: 40");
}

#[test]
fn plan_output_returns_the_snapshot_refusal_unchanged() {
  let mut bad_mode = mode(7, 44100, PcmEncoding::F32);
  bad_mode.channels = 0;
  let bad = DeviceSnapshot { revision: 1, devices: vec![device("x", 0, bad_mode)] };
  let source = SampleSpec::interleaved(48000, 2, PcmEncoding::F32).unwrap();
  assert_eq!(plan_output(&bad, source, &[any()]).err(), bad.validate().err());
  match plan_output(&bad, source, &[any()]) {
    Err(PlanError::InvalidCapabilities(message)) => assert_eq!(message, "device x has invalid mode 7"),
    _ => panic!("expected invalid capabilities"),
  }
}

#[test]
fn chosen_plan_carries_its_device_mode_and_preference() {
  let picked = OutputMode {
    id: 5,
    channels: 2,
    encoding: PcmEncoding::I16,
    rates: SampleRateRange { min: 44100, max: 48000 },
    default_rate: 48000,
    is_default: false,
    quality_rank: 7,
  };
  let snapshot = DeviceSnapshot { revision: 42, devices: vec![device("dev", 3, picked.clone())] };
  let source = SampleSpec::interleaved(44100, 2, PcmEncoding::F32).unwrap();
  let pref = OutputPreference { recovery: RecoveryPolicy::Stop, ..any() };
  let plan = plan_output(&snapshot, source, &[pref]).unwrap();
  assert_eq!(plan.snapshot_revision, 42);
  assert_eq!(plan.device_id, "dev");
  assert_eq!(plan.mode_id, 5);
  assert_eq!(plan.device_priority, 3);
  assert_eq!(plan.quality_rank, 7);
  assert!(!plan.is_default);
  assert_eq!(plan.recovery, RecoveryPolicy::Stop);
  assert!(picked.accepts(plan.target_spec));
  assert_eq!(plan.conversion_loss, conversion_loss(source, plan.target_spec));
}
