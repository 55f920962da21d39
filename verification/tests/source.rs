use around::source::{FormatSignature, SourceCapabilities, SourceRequirements};

#[test]
fn source_capabilities_none_contains_nothing() {
    let caps = SourceCapabilities::NONE();
    assert!(!caps.contains(SourceCapabilities::MULTI_OPEN()));
    assert!(!caps.contains(SourceCapabilities::SEEKABLE()));
}

#[test]
fn source_capabilities_contains_individual_flag() {
    let caps = SourceCapabilities::MULTI_OPEN();
    assert!(caps.contains(SourceCapabilities::MULTI_OPEN()));
    assert!(!caps.contains(SourceCapabilities::SEEKABLE()));
}

#[test]
fn source_capabilities_or_combines_flags() {
    let caps = SourceCapabilities::MULTI_OPEN() | SourceCapabilities::SEEKABLE();
    assert!(caps.contains(SourceCapabilities::MULTI_OPEN()));
    assert!(caps.contains(SourceCapabilities::SEEKABLE()));
}

#[test]
fn source_capabilities_empty_bits() {
    let caps = SourceCapabilities::NONE();
    assert_eq!(caps.bits(), 0);
}

#[test]
fn source_capabilities_seekable_bits() {
    let caps = SourceCapabilities::SEEKABLE();
    assert_eq!(caps.bits(), 1 << 1);
}

#[test]
fn every_set_contains_the_empty_set() {
    assert!(SourceCapabilities::SEEKABLE().contains(SourceCapabilities::NONE()));
    assert!(SourceRequirements::NONE().contains(SourceRequirements::NONE()));
}

#[test]
fn requirement_flags_are_distinct_bits() {
    let all = SourceRequirements::SEEKABLE()
        | SourceRequirements::KNOWN_LENGTH()
        | SourceRequirements::KNOWN_CONTENT_TYPE();
    assert_eq!(all.bits(), 7);
    let two = SourceRequirements::SEEKABLE().union(SourceRequirements::KNOWN_LENGTH());
    assert!(!two.contains(SourceRequirements::KNOWN_CONTENT_TYPE()));
    assert!(two.contains(SourceRequirements::KNOWN_LENGTH()));
}

#[test]
fn format_signature_builders_keep_other_fields() {
    let sig = FormatSignature::from_extension("wav", "WAV audio")
        .with_mime("audio/wav")
        .with_magic(b"RIFF");
    assert_eq!(sig.extension, Some("wav"));
    assert_eq!(sig.mime_type, Some("audio/wav"));
    assert_eq!(sig.magic_bytes, Some(&b"RIFF"[..]));
    assert_eq!(sig.description, "WAV audio");
}

#[test]
fn union_contains_each_operand() {
    let a = SourceCapabilities::MULTI_OPEN();
    let b = SourceCapabilities::SEEKABLE();
    let u = a.union(b);
    assert!(u.contains(a));
    assert!(u.contains(b));
    assert!(a.contains(SourceCapabilities::NONE()));
    assert_eq!(u.bits(), 3);
}
