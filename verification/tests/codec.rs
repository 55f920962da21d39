use around::codec::{CodecInfo, CodecRegistry, PrefixReadError, PrefixReader, SeekFrom, SliceSource};
use around::pcm_codec::{PcmCodec, PcmOpenError, PCM_INFO};
use around::source::FormatSignature;
use around::wav::{WavCodec, WAV_INFO};

fn info_with(name: &'static str, ext: &'static str, magic: Option<&'static [u8]>) -> CodecInfo {
    let mut sig = FormatSignature::from_extension(ext, "test");
    if let Some(m) = magic {
        sig = sig.with_magic(m);
    }
    let fmts: &'static [FormatSignature] = Box::leak(Box::new([sig]));
    CodecInfo::new(name, fmts)
}

#[test]
fn prefix_reader_read_and_rewind() {
    let data = b"hello world, this is a test";
    let inner = SliceSource::new(data.to_vec());
    let mut pr = PrefixReader::new(inner, 8);

    let mut buf = [0u8; 5];
    let n = pr.read(&mut buf).unwrap();
    assert_eq!(n, 5);
    assert_eq!(&buf, b"hello");

    pr.rewind();

    let mut buf2 = [0u8; 11];
    let n2 = pr.read(&mut buf2).unwrap();
    assert_eq!(n2, 11);
    assert_eq!(&buf2, b"hello world");
}

#[test]
fn prefix_reader_seek_within_buffer() {
    let data = b"0123456789abcdef";
    let mut pr = PrefixReader::new(SliceSource::new(data.to_vec()), 16);
    let mut buf = [0u8; 4];
    pr.read(&mut buf).unwrap();
    assert_eq!(&buf, b"0123");
    assert_eq!(pr.seek(SeekFrom::Start(2)).unwrap(), 2);
    let mut buf2 = [0u8; 4];
    pr.read(&mut buf2).unwrap();
    assert_eq!(&buf2, b"2345");
    assert_eq!(pr.seek(SeekFrom::Current(-6)).unwrap(), 0);
}

#[test]
fn prefix_reader_seek_beyond_buffer_fails() {
    let mut pr = PrefixReader::new(SliceSource::new(b"abc".to_vec()), 16);
    let err = pr.seek(SeekFrom::Start(100)).unwrap_err();
    assert_eq!(err, PrefixReadError::BeyondBuffered { target: 100, available: 3 });
    assert_eq!(err.to_string(), "seek to 100 beyond buffered data (3 bytes available)");
    assert_eq!(pr.buffer(), b"abc");
}

#[test]
fn prefix_reader_rejects_end_and_negative_seeks() {
    let mut pr = PrefixReader::new(SliceSource::new(b"abc".to_vec()), 2);
    assert_eq!(pr.seek(SeekFrom::End(0)).unwrap_err(), PrefixReadError::EndUnsupported);
    assert_eq!(pr.seek(SeekFrom::Current(-1)).unwrap_err(), PrefixReadError::NegativePosition);
    assert_eq!(pr.seek(SeekFrom::Start(u64::MAX)).unwrap_err(), PrefixReadError::NegativePosition);
}

#[test]
fn prefix_reader_short_read_at_end() {
    let mut pr = PrefixReader::new(SliceSource::new(b"abc".to_vec()), 2);
    let mut buf = [9u8; 5];
    assert_eq!(pr.read(&mut buf).unwrap(), 3);
    assert_eq!(buf, [b'a', b'b', b'c', 9, 9]);
    assert_eq!(pr.read(&mut buf).unwrap(), 0);
    assert_eq!(pr.buffer(), b"abc");
}

#[test]
fn codec_registry_by_extension() {
    let mut reg = CodecRegistry::new();
    reg.push(info_with("test", "wav", None));
    let matches = reg.by_extension("WAV");
    assert_eq!(matches.len(), 1);
    assert_eq!(matches[0].name, "test");
    assert!(reg.by_extension("mp3").is_empty());
}

#[test]
fn codec_registry_by_magic() {
    let mut reg = CodecRegistry::new();
    reg.push(info_with("riff", "wav", Some(b"RIFF")));
    let matches = reg.by_magic(b"RIFF....WAVE");
    assert_eq!(matches.len(), 1);
    assert_eq!(matches[0].name, "riff");
    assert!(reg.by_magic(b"ID3....").is_empty());
    assert!(reg.by_magic(b"RIF").is_empty());
}

#[test]
fn registry_keeps_registration_order() {
    let mut reg = CodecRegistry::new();
    reg.push(info_with("bad-wav", "wav", None));
    reg.push(WAV_INFO());
    reg.push(PCM_INFO());
    let names: Vec<&str> = reg.by_extension("wav").iter().map(|c| c.name).collect();
    assert_eq!(names, vec!["bad-wav", "wav"]);
    assert_eq!(reg.all().len(), 3);
    assert!(reg.by_extension("").is_empty());
    let magic: Vec<&str> = reg.by_magic(b"RIFF....WAVE").iter().map(|c| c.name).collect();
    assert_eq!(magic, vec!["wav"]);
}

#[test]
fn codec_info_copy_trait() {
    let info = WAV_INFO();
    let copy = info;
    assert_eq!(info.name, copy.name);
}

#[test]
fn codec_info_copy_works_correctly() {
    let info = WAV_INFO();
    let copy = info;
    assert_eq!(info.name, copy.name);
    assert_eq!(info.supported_formats.as_ptr(), copy.supported_formats.as_ptr());
}

#[test]
fn pcm_codec_info_exists() {
    let info = &PCM_INFO();
    assert_eq!(info.name, "pcm");
    assert!(!info.supported_formats.is_empty());
}

#[test]
fn codec_contract_pcm_codec_open_and_read() {
    let raw = vec![0x40, 0x1F, 0x00, 0x00, 1, 16, 0, 0];
    let mut stream = PcmCodec.open(&raw).expect("should open PCM");
    assert_eq!(stream.sample_rate, 8000);
    assert_eq!(stream.channels, 1);
    assert!(stream.total_frames > 0);
    let frames = stream.read_frames(&raw[6..], 1024);
    assert_eq!(frames, vec![0]);
}

#[test]
fn extensions_contract_pcm_codec_open_and_read() {
    let raw = vec![0x40, 0x1F, 0x00, 0x00, 1, 16, 0, 0];
    let mut stream = PcmCodec.open(&raw).expect("should open PCM");
    assert_eq!(stream.sample_rate, 8000);
    assert_eq!(stream.channels, 1);
    let frames = stream.read_frames(&raw[6..], 1024);
    assert!(!frames.is_empty());
}

#[test]
fn pcm_open_rejects_bad_headers() {
    assert_eq!(PcmCodec.open(&[1, 2, 3]).unwrap_err(), PcmOpenError::ShortHeader);
    assert_eq!(PcmCodec.open(&[0, 0, 0, 0, 1, 16]).unwrap_err().code(), -2);
    assert_eq!(PcmCodec.open(&[0x40, 0x1F, 0, 0, 1, 12]).unwrap_err(), PcmOpenError::InvalidHeader);
    assert_eq!(PcmCodec.seek(0), -1);
}

#[test]
fn pcm_probe_scores() {
    assert_eq!(PcmCodec.probe(&[0x40, 0x1F, 0, 0, 2, 16], b"x.PCM"), 70);
    assert_eq!(PcmCodec.probe(&[0x40, 0x1F, 0, 0, 2, 16], b""), 50);
    assert_eq!(PcmCodec.probe(&[0x40, 0x1F, 0, 0, 9, 16], b""), 0);
    assert_eq!(PcmCodec.probe(&[0x00, 0x10, 0x06, 0, 2, 16], b"a.wav"), 0);
}

/// A canonical 16-bit stereo WAV at 8000 Hz holding `frames` frames of a ramp.
fn example_wav(frames: u16) -> Vec<u8> {
    let mut pcm = Vec::new();
    for i in 0..frames {
        pcm.extend_from_slice(&(i as i16).to_le_bytes());
        pcm.extend_from_slice(&(-(i as i16)).to_le_bytes());
    }
    let mut wav = Vec::new();
    wav.extend_from_slice(b"RIFF");
    wav.extend_from_slice(&(36 + pcm.len() as u32).to_le_bytes());
    wav.extend_from_slice(b"WAVEfmt ");
    wav.extend_from_slice(&16u32.to_le_bytes());
    wav.extend_from_slice(&1u16.to_le_bytes());
    wav.extend_from_slice(&2u16.to_le_bytes());
    wav.extend_from_slice(&8000u32.to_le_bytes());
    wav.extend_from_slice(&32000u32.to_le_bytes());
    wav.extend_from_slice(&4u16.to_le_bytes());
    wav.extend_from_slice(&16u16.to_le_bytes());
    wav.extend_from_slice(b"data");
    wav.extend_from_slice(&(pcm.len() as u32).to_le_bytes());
    wav.extend_from_slice(&pcm);
    wav
}

/// Opens `data` with the codec `codec` names: the built-in codecs decide,
/// a codec named `mp3` stands for one that always opens, any other for one
/// that always fails.
fn opens(codec: &CodecInfo, data: &[u8]) -> bool {
    match codec.name {
        "wav" => WavCodec.open(data).is_ok(),
        "pcm" => PcmCodec.open(data).is_ok(),
        "mp3" => true,
        _ => false,
    }
}

#[test]
fn wav_codec_info_has_non_empty_formats() {
    let info = WAV_INFO();
    assert!(!info.supported_formats.is_empty());
    assert_eq!(info.name, "wav");
}

#[test]
fn wav_codec_stereo_output_has_correct_frame_count() {
    let data = example_wav(100);
    let mut stream = WavCodec.open(&data).expect("should open");
    assert_eq!(stream.channels, 2);
    let buf_len = 4096 * 2;
    let start = stream.data_start as usize;
    let samples = stream.read_frames(&data[start..], buf_len);
    let frames = samples.len() / 2;
    assert!(frames > 0);
    assert!(frames * 2 <= buf_len);
    assert_eq!(frames, 100);
}

#[test]
fn codec_registry_by_extension_matches_wav() {
    let mut registry = CodecRegistry::new();
    registry.push(WAV_INFO());
    let matches = registry.by_extension("wav");
    assert!(!matches.is_empty());
    assert_eq!(matches[0].name, "wav");
    let matches = registry.by_extension("WAV");
    assert!(!matches.is_empty());
}

#[test]
fn codec_registry_by_extension_no_match_returns_empty() {
    let mut registry = CodecRegistry::new();
    registry.push(WAV_INFO());
    assert!(registry.by_extension("mp3").is_empty());
}

#[test]
#[allow(non_snake_case)]
fn codec_registry_by_magic_matches_RIFF() {
    let mut registry = CodecRegistry::new();
    registry.push(WAV_INFO());
    let matches = registry.by_magic(b"RIFF....WAVE");
    assert!(!matches.is_empty());
    assert_eq!(matches[0].name, "wav");
}

#[test]
fn codec_registry_by_magic_no_match_returns_empty() {
    let mut registry = CodecRegistry::new();
    registry.push(WAV_INFO());
    assert!(registry.by_magic(b"ID3....").is_empty());
}

#[test]
fn extension_first_codec_fallback_chain() {
    let mut registry = CodecRegistry::new();
    registry.push(info_with("bad-wav", "wav", None));
    registry.push(WAV_INFO());
    let ext_codecs = registry.by_extension("wav");
    assert_eq!(ext_codecs.len(), 2);
    let data = example_wav(10);
    let mut succeeded = false;
    for codec in &ext_codecs {
        if opens(codec, &data) {
            assert_eq!(codec.name, "wav");
            succeeded = true;
            break;
        }
    }
    assert!(succeeded, "one codec must open valid WAV data");
}

#[test]
fn no_extension_detected_by_magic() {
    let mut registry = CodecRegistry::new();
    registry.push(WAV_INFO());
    assert!(registry.by_extension("").is_empty());
    let magic_codecs = registry.by_magic(b"RIFF....WAVE");
    assert!(!magic_codecs.is_empty());
    assert_eq!(magic_codecs[0].name, "wav");
}

#[test]
fn extension_magic_conflict_magic_wins() {
    let mut registry = CodecRegistry::new();
    registry.push(WAV_INFO());
    registry.push(info_with("mp3", "mp3", Some(b"ID3")));
    let ext_codecs = registry.by_extension("wav");
    assert_eq!(ext_codecs.len(), 1);
    let magic_codecs = registry.by_magic(b"ID3\x03\x00\x00\x00...");
    assert_eq!(magic_codecs.len(), 1);
    assert_eq!(magic_codecs[0].name, "mp3");
    let same = ext_codecs.len() == magic_codecs.len()
        && ext_codecs.iter().all(|a| magic_codecs.iter().any(|b| a.name == b.name));
    assert!(!same);
}

#[test]
fn fallback_chain_tries_all_codecs() {
    let mut registry = CodecRegistry::new();
    registry.push(info_with("failing-wav", "wav", None));
    registry.push(WAV_INFO());
    registry.push(info_with("mp3", "mp3", Some(b"ID3")));
    let ext_codecs = registry.by_extension("wav");
    assert_eq!(ext_codecs.len(), 2);
    let data = example_wav(10);
    let mut tried: Vec<&str> = Vec::new();
    let mut opened = false;
    for codec in &ext_codecs {
        tried.push(codec.name);
        if opens(codec, &data) {
            opened = true;
            break;
        }
    }
    assert!(opened, "WAV codec should open WAV data");
    assert_eq!(tried, vec!["failing-wav", "wav"]);
}

#[test]
fn all_codecs_fail_no_fallback_remaining() {
    let mut registry = CodecRegistry::new();
    registry.push(info_with("bad-wav", "wav", None));
    let ext_codecs = registry.by_extension("wav");
    assert_eq!(ext_codecs.len(), 1);
    let all_failed = ext_codecs.iter().all(|c| !opens(c, b"RIFF....WAVE....."));
    assert!(all_failed);
    assert!(registry.by_magic(b"RIFF....WAVE").is_empty());
}

#[test]
fn registry_all_supports_full_fallback() {
    let mut registry = CodecRegistry::new();
    registry.push(WAV_INFO());
    registry.push(PCM_INFO());
    let all = registry.all();
    assert_eq!(all.len(), 2);
    let names: Vec<&str> = all.iter().map(|c| c.name).collect();
    assert!(names.contains(&"wav"));
    assert!(names.contains(&"pcm"));
}

#[test]
fn pcm_probe_and_byte_offset() {
    assert_eq!(PcmCodec.probe(b"\x00\x00\x00\x00\x00\x00", b"\xff\xfe.pcm"), 0);
    let raw = vec![0x44, 0xAC, 0x00, 0x00, 2, 24, 0, 0, 0, 0, 0, 0];
    let stream = PcmCodec.open(&raw).expect("should open PCM");
    assert_eq!(stream.byte_offset(0), 6);
    assert_eq!(stream.byte_offset(10), 6 + 10 * 6);
}

#[test]
fn prefix_reader_rewind_replays_from_any_read_position() {
    let data = b"0123456789abcdef";
    let mut pr = PrefixReader::new(SliceSource::new(data.to_vec()), 3);
    let mut first = [0u8; 7];
    assert_eq!(pr.read(&mut first).unwrap(), 7);
    assert_eq!(&first, b"0123456");
    assert!(data.starts_with(pr.buffer()));
    pr.rewind();
    let mut all = [0u8; 20];
    assert_eq!(pr.read(&mut all).unwrap(), 16);
    assert_eq!(&all[..16], data);
    assert_eq!(pr.buffer(), data);
}

#[test]
fn pcm_read_at_skips_the_header_and_stops_at_the_end() {
    let raw = vec![0x40, 0x1F, 0x00, 0x00, 1, 16, 1, 0, 2, 0, 3];
    let mut stream = PcmCodec.open(&raw).expect("should open PCM");
    assert_eq!(stream.read_at(&raw, 1).unwrap(), vec![1]);
    assert_eq!(stream.read_at(&raw, 8).unwrap(), vec![2]);
    assert_eq!(stream.read_at(&raw, 8).unwrap(), Vec::<i32>::new());
    stream.position = u64::MAX;
    assert_eq!(stream.read_at(&raw, 1), None);
}

#[test]
fn prefix_reader_seeks_within_buffer_and_reads_after_refusal() {
    let mut pr = PrefixReader::new(SliceSource::new(b"abc".to_vec()), 16);
    assert!(pr.seek(SeekFrom::Start(100)).is_err());
    let mut buf = [0u8; 3];
    assert_eq!(pr.read(&mut buf).unwrap(), 3);
    assert_eq!(&buf, b"abc");
    assert_eq!(pr.seek(SeekFrom::Start(1)).unwrap(), 1);
    assert_eq!(pr.seek(SeekFrom::Current(2)).unwrap(), 3);
    assert_eq!(pr.seek(SeekFrom::Start(0)).unwrap(), 0);
    let mut two = [0u8; 2];
    assert_eq!(pr.read(&mut two).unwrap(), 2);
    assert_eq!(&two, b"ab");
}
