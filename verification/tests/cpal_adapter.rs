use around::cpal_adapter::{
    check_plan_revision, check_planned_range, device_id, fill_silence, fill_silence_on, stable_hash,
    CpalOutputAdapter,
};
use around::output_session::OutputError;
use around::pcm::SampleSpec;
use around::output_plan::{OutputMode, SampleRateRange};
use around::pcm::PcmEncoding;

#[test]
fn unsigned_silence_uses_native_midpoint() {
    let mut bytes = [0_u8; 4];
    fill_silence(PcmEncoding::U16, &mut bytes);
    let little = 1u16.to_ne_bytes()[0] == 1;
    assert_eq!(bytes, if little { [0, 128, 0, 128] } else { [128, 0, 128, 0] });
}

#[test]
fn signed_silence_is_zero_and_partial_tail_is_cleared() {
    let mut bytes = [7_u8; 5];
    fill_silence_on(PcmEncoding::I16, &mut bytes, true);
    assert_eq!(bytes, [0; 5]);
    let mut bytes = [7_u8; 5];
    fill_silence_on(PcmEncoding::U16, &mut bytes, false);
    assert_eq!(bytes, [128, 0, 128, 0, 0]);
    let mut bytes = [7_u8; 3];
    fill_silence_on(PcmEncoding::U8, &mut bytes, true);
    assert_eq!(bytes, [128, 128, 128]);
}

#[test]
fn stable_hash_is_fnv1a() {
    assert_eq!(stable_hash(b""), 0xcbf29ce484222325);
    assert_eq!(stable_hash(b"a"), 0xaf63dc4c8601ec8c);
}

#[test]
fn device_id_hashes_name_and_modes() {
    let mode = OutputMode {
        id: 0,
        channels: 2,
        encoding: PcmEncoding::I16,
        rates: SampleRateRange::new(44100, 48000).unwrap(),
        default_rate: 48000,
        is_default: true,
        quality_rank: 0,
    };
    let id = device_id("Speakers", &[mode]);
    let expected = format!("cpal:{:016x}", stable_hash(b"Speakers:2:16:44100-48000"));
    assert_eq!(id, expected);
    assert_eq!(device_id("x", &[]), format!("cpal:{:016x}", stable_hash(b"x")));
}

#[test]
fn adapter_keeps_priority() {
    assert_eq!(CpalOutputAdapter::new(5).priority(), 5);
    assert_eq!(CpalOutputAdapter::default().priority(), 0);
}

fn binding_message(r: Result<PcmEncoding, OutputError>) -> String {
    match r {
        Err(OutputError::Binding(m)) => m,
        other => panic!("expected a binding error, got {other:?}"),
    }
}

#[test]
fn stale_plans_are_refused_before_opening() {
    assert!(check_plan_revision(4, 4).is_ok());
    match check_plan_revision(5, 4) {
        Err(OutputError::Binding(m)) => assert_eq!(m, "output capabilities changed since planning"),
        other => panic!("expected a binding error, got {other:?}"),
    }
    let target = SampleSpec::interleaved(48000, 2, PcmEncoding::I16).unwrap();
    assert_eq!(check_planned_range(target, Some(PcmEncoding::I16), 2, 44100, 96000), Ok(PcmEncoding::I16));
    assert_eq!(
        binding_message(check_planned_range(target, None, 2, 44100, 96000)),
        "planned CPAL format is not representable"
    );
    assert_eq!(
        binding_message(check_planned_range(target, Some(PcmEncoding::F32), 2, 44100, 96000)),
        "planned output encoding or channel count is stale"
    );
    assert_eq!(
        binding_message(check_planned_range(target, Some(PcmEncoding::I16), 1, 44100, 96000)),
        "planned output encoding or channel count is stale"
    );
    assert_eq!(
        binding_message(check_planned_range(target, Some(PcmEncoding::I16), 2, 8000, 44100)),
        "planned sample rate is stale"
    );
}
