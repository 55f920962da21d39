use around::slot::{
    create_symbol, create_symbol_nul, default_create_symbol, default_slot_name, parse_slot_args, replace_path_sep,
    SlotArgError, SlotMode, SlotOption, CODEC_CREATE_SYM, CODEC_NAME, FILTER_CREATE_SYM, FILTER_NAME,
};

fn opt(key: &str, value: Option<&str>) -> SlotOption {
    SlotOption { key: key.to_string(), value: value.map(|v| v.to_string()) }
}

#[test]
fn slot_name_stability() {
    assert_eq!(
        CODEC_NAME, "around_audio_sdk::Codec",
        "Slot NAME changed — verify CREATE_SYM compatibility with .so plugins."
    );
    assert_eq!(
        CODEC_CREATE_SYM, "around_audio_sdk_codec_create",
        "CREATE_SYM changed — plugin .so files must export exactly this symbol."
    );
}

#[test]
fn create_symbols_follow_names() {
    assert_eq!(create_symbol(CODEC_NAME), CODEC_CREATE_SYM);
    assert_eq!(create_symbol(FILTER_NAME), FILTER_CREATE_SYM);
    assert_eq!(replace_path_sep("a:::b::c:"), "a_:b_c:");
    assert_eq!(default_slot_name("around_audio_sdk", "Codec"), "around_audio_sdk::Codec");
    assert_eq!(default_create_symbol("around_audio_sdk", "codec"), CODEC_CREATE_SYM);
}

#[test]
fn slot_args_parse() {
    let a = parse_slot_args(&[]).unwrap();
    assert_eq!(a.mode, SlotMode::VecStorage);
    assert_eq!(a.name, None);
    let a = parse_slot_args(&[opt("storage", Some("map")), opt("name", Some("x::Y"))]).unwrap();
    assert_eq!(a.mode, SlotMode::MapStorage);
    assert_eq!(a.name.as_deref(), Some("x::Y"));
    let a = parse_slot_args(&[opt("manual", None), opt("storage", Some("vec"))]).unwrap();
    assert_eq!(a.mode, SlotMode::VecStorage);
    assert_eq!(parse_slot_args(&[opt("storage", Some("tree"))]).unwrap_err(), SlotArgError::BadStorage);
    assert_eq!(parse_slot_args(&[opt("prefix", Some("p"))]).unwrap_err(), SlotArgError::PrefixRemoved);
    assert_eq!(parse_slot_args(&[opt("other", None)]).unwrap_err(), SlotArgError::UnknownOption);
    assert!(SlotArgError::PrefixRemoved.message().starts_with("prefix is removed"));
}

#[test]
fn default_symbol_is_symbol_of_default_name() {
    for (krate, tr) in [("around_audio_sdk", "Codec"), ("around_audio_sdk", "Filter"), ("my_ext", "SinkPlugin")] {
        let name = default_slot_name(krate, tr);
        assert_eq!(create_symbol(&name), default_create_symbol(krate, &tr.to_lowercase()));
    }
}

#[test]
fn nul_terminated_symbol_follows_the_symbol() {
    assert_eq!(create_symbol_nul(CODEC_NAME), b"around_audio_sdk_codec_create\0".to_vec());
    let sym = create_symbol("Ext::Sink");
    let mut expected = sym.as_bytes().to_vec();
    expected.push(0);
    assert_eq!(create_symbol_nul("Ext::Sink"), expected);
}
