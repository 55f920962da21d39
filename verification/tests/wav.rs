use around::source::SourceRequirements;
use around::wav::{decode_sample, parse_header, WavCodec, WavDecoder, WavError};

fn build_wav(channels: u8, bit_depth: u8, sample_data: &[u8]) -> Vec<u8> {
    let bytes_per_sample = (bit_depth as usize) / 8;
    let data_size = sample_data.len() as u32;
    let fmt_size: u32 = 16;
    let riff_data_size = 4 + 8 + fmt_size + 8 + data_size;
    let mut wav = Vec::new();
    wav.extend_from_slice(b"RIFF");
    wav.extend_from_slice(&riff_data_size.to_le_bytes());
    wav.extend_from_slice(b"WAVE");
    wav.extend_from_slice(b"fmt ");
    wav.extend_from_slice(&fmt_size.to_le_bytes());
    wav.extend_from_slice(&1u16.to_le_bytes());
    wav.extend_from_slice(&(channels as u16).to_le_bytes());
    wav.extend_from_slice(&8000u32.to_le_bytes());
    wav.extend_from_slice(&(8000u32 * channels as u32 * bytes_per_sample as u32).to_le_bytes());
    wav.extend_from_slice(&(channels as u16 * bytes_per_sample as u16).to_le_bytes());
    wav.extend_from_slice(&(bit_depth as u16).to_le_bytes());
    wav.extend_from_slice(b"data");
    wav.extend_from_slice(&data_size.to_le_bytes());
    wav.extend_from_slice(sample_data);
    wav
}

fn build_wav_with_format(audio_format: u16, channels: u8, bit_depth: u8) -> Vec<u8> {
    let bytes_per_sample = (bit_depth as usize) / 8;
    let fmt_size: u32 = 16;
    let data_size: u32 = bytes_per_sample as u32 * channels as u32;
    let riff_data_size = 4 + 8 + fmt_size + 8 + data_size;
    let mut wav = Vec::new();
    wav.extend_from_slice(b"RIFF");
    wav.extend_from_slice(&riff_data_size.to_le_bytes());
    wav.extend_from_slice(b"WAVE");
    wav.extend_from_slice(b"fmt ");
    wav.extend_from_slice(&fmt_size.to_le_bytes());
    wav.extend_from_slice(&audio_format.to_le_bytes());
    wav.extend_from_slice(&(channels as u16).to_le_bytes());
    wav.extend_from_slice(&8000u32.to_le_bytes());
    wav.extend_from_slice(&(8000u32 * channels as u32 * bytes_per_sample as u32).to_le_bytes());
    wav.extend_from_slice(&(channels as u16 * bytes_per_sample as u16).to_le_bytes());
    wav.extend_from_slice(&(bit_depth as u16).to_le_bytes());
    wav.extend_from_slice(b"data");
    wav.extend_from_slice(&data_size.to_le_bytes());
    wav.resize(wav.len() + data_size as usize, 0);
    wav
}

#[test]
fn wav_decoder_requires_seekable_and_known_length() {
    let reqs = WavDecoder::source_requirements();
    assert!(reqs.contains(SourceRequirements::SEEKABLE()));
    assert!(reqs.contains(SourceRequirements::KNOWN_LENGTH()));
}

#[test]
fn probe_riff_magic_returns_high_confidence() {
    assert_eq!(WavCodec.probe(b"RIFF\x00\x00\x00\x00WAVE", b""), 95);
}

#[test]
fn probe_non_wav_header_returns_zero() {
    assert_eq!(WavCodec.probe(b"OggS\x00\x00\x00\x00", b""), 0);
}

#[test]
fn probe_truncated_header_returns_zero() {
    assert_eq!(WavCodec.probe(b"RIF", b""), 0);
}

#[test]
fn probe_zero_bytes_returns_zero() {
    assert_eq!(WavCodec.probe(b"", b""), 0);
}

#[test]
fn probe_wav_extension_returns_medium_confidence() {
    assert_eq!(WavCodec.probe(b"\x00\x00\x00\x00", b"audio.wav"), 60);
}

#[test]
fn probe_extension_case_insensitive() {
    assert_eq!(WavCodec.probe(b"\x00\x00\x00\x00", b"audio.WAV"), 60);
}

#[test]
fn probe_riff_magic_takes_precedence_over_extension() {
    assert_eq!(WavCodec.probe(b"RIFF\x00\x00\x00\x00WAVE", b"not_a_wav.mp3"), 95);
}

#[test]
fn probe_short_filename_no_extension() {
    assert_eq!(WavCodec.probe(b"\x00\x00\x00\x00", b"abc"), 0);
}

#[test]
fn probe_invalid_utf8_name_scores_zero() {
    assert_eq!(WavCodec.probe(b"\x00\x00\x00\x00", b"\xff\xfe.wav"), 0);
}

#[test]
fn name_contains_wav() {
    assert!(WavCodec.name().to_lowercase().contains("wav"));
}

#[test]
fn open_valid_wav_succeeds() {
    let data = build_wav(1, 16, &[0x00, 0x00, 0xFF, 0x7F, 0x00, 0x80]);
    let s = WavCodec.open(&data).expect("open() should succeed on valid WAV");
    assert_eq!(s.sample_rate, 8000);
    assert_eq!(s.channels, 1);
    assert_eq!(s.total_frames, 3);
    assert_eq!(s.bytes_per_frame, 2);
    assert_eq!(s.data_start, 0);
}

#[test]
fn open_stereo_wav_succeeds() {
    let data = build_wav(2, 16, &[0x00, 0x00, 0x00, 0x00]);
    let s = WavCodec.open(&data).expect("open() should succeed on stereo WAV");
    assert_eq!(s.channels, 2);
    assert_eq!(s.total_frames, 1);
}

#[test]
fn open_invalid_riff_rejected() {
    assert_eq!(WavCodec.open(b"NOT_RIFF_HEADER").unwrap_err(), WavError::NotRiff);
}

#[test]
fn open_missing_wave_rejected() {
    let mut data = b"RIFF".to_vec();
    data.extend_from_slice(&20u32.to_le_bytes());
    data.extend_from_slice(b"AVI ");
    data.extend_from_slice(b"fmt ");
    data.extend_from_slice(&16u32.to_le_bytes());
    data.extend_from_slice(&[0u8; 16]);
    data.extend_from_slice(b"data");
    data.extend_from_slice(&0u32.to_le_bytes());
    assert_eq!(WavCodec.open(&data).unwrap_err(), WavError::NotWave);
}

#[test]
fn open_unsupported_format_rejected() {
    let data = build_wav_with_format(3, 1, 16);
    let e = WavCodec.open(&data).unwrap_err();
    assert_eq!(e, WavError::UnsupportedFormat(3));
    assert_eq!(e.to_string(), "unsupported audio format: 3");
}

#[test]
fn open_unsupported_bit_depth_rejected() {
    let data = build_wav_with_format(1, 1, 12);
    let e = parse_header(&data).unwrap_err();
    assert_eq!(e, WavError::UnsupportedBitDepth(12));
    assert_eq!(e.to_string(), "unsupported bit depth: 12");
}

#[test]
fn open_unsupported_channel_count_rejected() {
    let data = build_wav_with_format(1, 9, 16);
    assert_eq!(parse_header(&data).unwrap_err(), WavError::UnsupportedChannels(9));
}

#[test]
fn open_no_data_chunk_rejected() {
    let fmt_size: u32 = 16;
    let riff_data_size = 4 + 8 + fmt_size;
    let mut data = Vec::new();
    data.extend_from_slice(b"RIFF");
    data.extend_from_slice(&riff_data_size.to_le_bytes());
    data.extend_from_slice(b"WAVE");
    data.extend_from_slice(b"fmt ");
    data.extend_from_slice(&fmt_size.to_le_bytes());
    data.extend_from_slice(&1u16.to_le_bytes());
    data.extend_from_slice(&1u16.to_le_bytes());
    data.extend_from_slice(&8000u32.to_le_bytes());
    data.extend_from_slice(&8000u32.to_le_bytes());
    data.extend_from_slice(&1u16.to_le_bytes());
    data.extend_from_slice(&8u16.to_le_bytes());
    let e = WavCodec.open(&data).unwrap_err();
    assert_eq!(e, WavError::NoDataChunk);
    assert_eq!(e.to_string(), "no data chunk found");
}

#[test]
fn open_data_before_fmt_rejected() {
    let mut data = b"RIFF".to_vec();
    data.extend_from_slice(&12u32.to_le_bytes());
    data.extend_from_slice(b"WAVE");
    data.extend_from_slice(b"data");
    data.extend_from_slice(&0u32.to_le_bytes());
    assert_eq!(parse_header(&data).unwrap_err(), WavError::NoFmtChunk);
}

#[test]
fn unknown_chunks_are_skipped() {
    let plain = build_wav(1, 8, &[1, 2, 3, 4]);
    let mut data = plain[..12].to_vec();
    data.extend_from_slice(b"LIST");
    data.extend_from_slice(&6u32.to_le_bytes());
    data.extend_from_slice(b"abcdef");
    data.extend_from_slice(&plain[12..]);
    let h = parse_header(&data).expect("LIST chunk is skipped");
    assert_eq!(h.total_frames, 4);
    assert_eq!(h.bit_depth, 8);
}

#[test]
fn open_empty_bytes_rejected() {
    assert_eq!(WavCodec.open(&[]).unwrap_err(), WavError::NotRiff);
}

#[test]
fn read_16bit_mono_returns_samples() {
    let data = build_wav(1, 16, &[0x00, 0x00, 0xFF, 0x7F, 0x00, 0x80]);
    let mut s = WavCodec.open(&data).expect("open should succeed");
    // Reading starts at the start of the file: "RI", "FF", "&\0" ...
    let samples = s.read_frames(&data, 8);
    assert_eq!(samples.len(), 3);
    assert_eq!(samples[0], i16::from_le_bytes([b'R', b'I']) as i32);
    assert_eq!(s.position, 3);
    let rest = s.read_frames(&data[6..], 8);
    assert!(rest.is_empty());
}

#[test]
fn read_stereo_fills_interleaved() {
    let pcm: &[u8] = &[0x00, 0x00, 0xFF, 0xFF, 0x01, 0x00, 0xFE, 0xFF];
    let data = build_wav(2, 16, pcm);
    let mut s = WavCodec.open(&data).expect("open should succeed");
    let samples = s.read_frames(pcm, 8);
    assert_eq!(samples, vec![0, -1, 1, -2]);
    assert_eq!(s.position, 2);
}

#[test]
fn read_stops_at_output_room_and_whole_frames() {
    let data = build_wav(1, 8, &[0x80, 0x00, 0xFF, 0x7F]);
    let mut s = WavCodec.open(&data).expect("open should succeed");
    let samples = s.read_frames(&[0x80, 0x00, 0xFF], 2);
    assert_eq!(samples, vec![-128, 0]);
    let more = s.read_frames(&[0xFF, 0x7F], 8);
    assert_eq!(more, vec![-1, 127]);
    assert_eq!(s.position, 4);
    let none = s.read_frames(&[1, 2, 3], 8);
    assert!(none.is_empty());
}

#[test]
fn decode_sample_widths() {
    assert_eq!(decode_sample(&[0xFF, 0xFF, 0x7F], 0, 24), 0x7FFFFF);
    assert_eq!(decode_sample(&[0x00, 0x00, 0x80], 0, 24), -0x800000);
    assert_eq!(decode_sample(&[0x00, 0x00, 0x00, 0x80], 0, 32), i32::MIN);
    assert_eq!(decode_sample(&[0x12, 0x34], 1, 16), 0x34);
}

#[test]
fn seek_to_frame_zero() {
    let data = build_wav(1, 16, &[0x00, 0x00, 0xFF, 0x7F]);
    let s = WavCodec.open(&data).expect("open should succeed");
    assert_eq!(s.seek_target(0), 0);
}

#[test]
fn seek_past_end_clamps_to_last_frame() {
    let data = build_wav(1, 16, &[0x00, 0x00, 0xFF, 0x7F]);
    let mut s = WavCodec.open(&data).expect("open should succeed");
    let t = s.seek_target(100);
    assert_eq!(t, 1);
    assert_eq!(s.byte_offset(t), 2);
    s.set_position(t);
    assert_eq!(s.position, 1);
}

#[test]
fn read_stereo_returns_interleaved() {
    let samples_16le: &[u8] = &[0x00, 0x00, 0xFF, 0xFF, 0x01, 0x00, 0xFE, 0xFF];
    let data = build_wav(2, 16, samples_16le);
    let mut s = WavCodec.open(&data).expect("open should succeed");
    let start = s.data_start as usize;
    assert_eq!(start, 0);
    let samples = s.read_frames(&data[start..], 8);
    assert!(!samples.is_empty(), "read should return samples");
    assert_eq!(samples[0], i16::from_le_bytes([b'R', b'I']) as i32);
}

#[test]
fn read_eof_returns_zero() {
    let data = build_wav(1, 16, &[0x00, 0x00]);
    let mut s = WavCodec.open(&data).expect("open should succeed");
    let mut total = 0usize;
    loop {
        let off = s.byte_offset(s.position) as usize;
        let n = s.read_frames(&data[off.min(data.len())..], 256).len();
        if n == 0 {
            break;
        }
        total += n;
    }
    assert_eq!(total, 1);
    assert_eq!(s.position, 1);
}

#[test]
fn wav_decoder_supported_formats_non_empty() {
    let formats = WavDecoder::supported_formats();
    assert!(!formats.is_empty());
    assert!(formats.iter().any(|f| f.extension == Some("wav")));
}

#[test]
fn read_at_follows_the_position_through_the_file() {
    let data = build_wav(1, 16, &[0x00, 0x00, 0xFF, 0x7F, 0x00, 0x80]);
    let mut s = WavCodec.open(&data).expect("open should succeed");
    let first = s.read_at(&data, 2).expect("offset fits");
    assert_eq!(first, vec![i16::from_le_bytes([b'R', b'I']) as i32, i16::from_le_bytes([b'F', b'F']) as i32]);
    assert_eq!(s.position, 2);
    let off = s.byte_offset(s.position) as usize;
    let next = s.read_at(&data, 2).expect("offset fits");
    assert_eq!(next[0], i16::from_le_bytes([data[off], data[off + 1]]) as i32);
    s.position = u64::MAX;
    assert_eq!(s.read_at(&data, 2), None);
    assert_eq!(s.position, u64::MAX);
}
