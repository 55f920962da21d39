use around::config::{EngineConfig, KdlEntryModel, KdlNodeModel, KdlValueModel, OutputDriver};

#[test]
fn parses_output_driver() {
    let config = EngineConfig::parse("output driver=\"null\"").unwrap();
    assert!(matches!(config.output_driver, OutputDriver::Null));
}

#[test]
fn rejects_unknown_output_driver() {
    let err = EngineConfig::parse("output driver=\"alsa\"").unwrap_err();
    assert_eq!(err, "unknown output driver: alsa");
}

#[test]
fn driver_must_be_a_string() {
    let err = EngineConfig::parse("output driver=3").unwrap_err();
    assert_eq!(err, "output driver must be a string");
}

#[test]
fn reads_device_and_reconnect() {
    let c = EngineConfig::parse("output device=\"Speakers\" auto_reconnect=#false\nother x=1").unwrap();
    assert_eq!(c.output_device.as_deref(), Some("Speakers"));
    assert!(!c.output_auto_reconnect);
    assert!(matches!(c.output_driver, OutputDriver::Cpal));
}

#[test]
fn malformed_kdl_is_refused() {
    let err = EngineConfig::parse("output {").unwrap_err();
    assert!(err.starts_with("KDL parse error: "));
}

#[test]
fn defaults_without_a_file() {
    let c = EngineConfig::load();
    assert_eq!(c.output_device, None);
    assert!(c.output_auto_reconnect);
    assert!(c.codec_search_paths.is_empty());
    assert!(matches!(c.output_driver, OutputDriver::Cpal));
}

#[test]
fn from_nodes_applies_output_nodes_in_order() {
    let entry = |name: &str, value: KdlValueModel| KdlEntryModel { name: Some(name.to_string()), value };
    let nodes = vec![
        KdlNodeModel { name: "output".into(), entries: vec![entry("driver", KdlValueModel::Str("null".into()))] },
        KdlNodeModel { name: "input".into(), entries: vec![entry("driver", KdlValueModel::Str("bad".into()))] },
        KdlNodeModel {
            name: "output".into(),
            entries: vec![
                KdlEntryModel { name: None, value: KdlValueModel::Other },
                entry("auto_reconnect", KdlValueModel::Other),
                entry("device", KdlValueModel::Bool(true)),
            ],
        },
    ];
    let c = EngineConfig::from_nodes(&nodes).unwrap();
    assert!(matches!(c.output_driver, OutputDriver::Null));
    assert!(c.output_auto_reconnect);
    assert_eq!(c.output_device, None);
}
