use pico2_uac1_loopback::check::analysis::{analyze, compare_at_offset, find_short_frame_aligned_sync, find_subslice};
use pico2_uac1_loopback::check::cli::{capture_mode_arg, matrix_cases, shared_format_arg, timing_arg, CaptureModeArg, SharedFormatArg, TimingArg};
use pico2_uac1_loopback::check::devices::{ascii_lowercase, choose_device, device_matches, DeviceChoice};
use pico2_uac1_loopback::check::dump::{decode_samples, read_i24};
use pico2_uac1_loopback::check::pattern::generate_pattern;
use pico2_uac1_loopback::check::shared_format::{
    make_waveformat_extensible_blob, subtype_pcm_bytes, CHANNELS, CHANNEL_MASK_STEREO, WAVEFORMATEXTENSIBLE_CB_SIZE,
    WAVE_FORMAT_EXTENSIBLE, DeviceFormat, SharedFormatGuard, device_format_matches_config,
};
use pico2_uac1_loopback::check::stream::{render_chunk, verify_exact_format, FormatMismatch, append_capture};
use pico2_uac1_loopback::check::types::{
    format_from_raw, polling_sleep, validate_format, CaptureMode, DeviceSummary, SampleRate, SampleWidth,
    SharedFormatMode, StreamStats, StreamTiming,
};

fn stats() -> StreamStats {
    StreamStats {
        frames: 0,
        discontinuities: 0,
        silent_buffers: 0,
        timestamp_errors: 0,
        buffer_frames: 0,
        period_hns: 0,
    }
}

#[test]
fn waveformat_extensible_blob_matches_48k_24bit_stereo() {
    let blob = make_waveformat_extensible_blob(SampleRate::R48000, SampleWidth::Bits24);

    assert_eq!(blob.len(), 40);
    assert_eq!(&blob[0..2], &WAVE_FORMAT_EXTENSIBLE.to_le_bytes());
    assert_eq!(&blob[2..4], &CHANNELS.to_le_bytes());
    assert_eq!(&blob[4..8], &48_000u32.to_le_bytes());
    assert_eq!(&blob[8..12], &288_000u32.to_le_bytes());
    assert_eq!(&blob[12..14], &6u16.to_le_bytes());
    assert_eq!(&blob[14..16], &24u16.to_le_bytes());
    assert_eq!(&blob[16..18], &WAVEFORMATEXTENSIBLE_CB_SIZE.to_le_bytes());
    assert_eq!(&blob[18..20], &24u16.to_le_bytes());
    assert_eq!(&blob[20..24], &CHANNEL_MASK_STEREO.to_le_bytes());
    assert_eq!(&blob[24..40], &subtype_pcm_bytes());
}

#[test]
fn waveformat_extensible_blob_matches_48k_32bit_stereo() {
    let blob = make_waveformat_extensible_blob(SampleRate::R48000, SampleWidth::Bits32);

    assert_eq!(blob.len(), 40);
    assert_eq!(&blob[8..12], &384_000u32.to_le_bytes());
    assert_eq!(&blob[12..14], &8u16.to_le_bytes());
    assert_eq!(&blob[14..16], &32u16.to_le_bytes());
    assert_eq!(&blob[18..20], &32u16.to_le_bytes());
}

#[test]
fn short_sync_finds_offset_when_later_payload_has_a_gap() {
    // 48 kHz, 24-bit stereo, one second.
    let rate = 48_000;
    let bytes_per_frame = 6;
    let expected = generate_pattern(48_000, SampleWidth::Bits24);
    let offset = 31 * bytes_per_frame;
    let mut captured = vec![0; offset];
    captured.extend_from_slice(&expected);
    captured[offset + bytes_per_frame * 4_000] ^= 0x55;

    let report = analyze(rate, bytes_per_frame, &expected, &captured, stats(), stats());

    assert!(report.sync_found);
    assert_eq!(report.latency_frames, Some(31));
    assert!(!report.exact);
    assert_eq!(report.mismatched_bytes, 1);
}

#[test]
fn config_rejects_unsupported_32_bit_rate() {
    let err = validate_format(SampleRate::R96000, SampleWidth::Bits32).unwrap_err();

    assert!(err.message().contains("32-bit"));
}

#[test]
fn raw_config_rejects_unknown_width() {
    let err = format_from_raw(48_000, 20).unwrap_err();

    assert!(err.message().contains("bits"));
}

#[test]
fn raw_config_accepts_supported_pairs() {
    assert_eq!(format_from_raw(44_100, 32), Ok((SampleRate::R44100, SampleWidth::Bits32)));
    assert!(format_from_raw(45_000, 16).unwrap_err().message().contains("rate"));
    assert!(format_from_raw(88_200, 32).is_err());
}

#[test]
fn find_subslice_returns_first_occurrence() {
    assert_eq!(find_subslice(b"abcabcabd", b"abcabd"), Some(3));
    assert_eq!(find_subslice(b"aaaaab", b"aab"), Some(3));
    assert_eq!(find_subslice(b"abc", b""), Some(0));
    assert_eq!(find_subslice(b"abc", b"abcd"), None);
    assert_eq!(find_subslice(b"abababc", b"ababc"), Some(2));
    assert_eq!(find_subslice(b"xyz", b"q"), None);
}

#[test]
fn exact_capture_is_bit_perfect() {
    let expected = generate_pattern(1_000, SampleWidth::Bits16);
    let mut captured = vec![0; 40];
    captured.extend_from_slice(&expected);
    let report = analyze(44_100, 4, &expected, &captured, stats(), stats());
    assert!(report.exact);
    assert_eq!(report.latency_frames, Some(10));
    assert_eq!(report.compared_bytes, expected.len());
    assert_eq!(report.missing_bytes, 0);
}

#[test]
fn missing_capture_is_reported() {
    let expected = generate_pattern(300, SampleWidth::Bits16);
    let report = analyze(48_000, 4, &expected, &[1, 2, 3], stats(), stats());
    assert!(!report.sync_found);
    assert_eq!(report.mismatched_bytes, expected.len());
    assert_eq!(report.missing_bytes, expected.len());
    assert!(report.first_mismatch.is_none());
}

#[test]
fn compare_counts_differences_and_missing_bytes() {
    let (compared, mismatched, missing, first) = compare_at_offset(&[1, 2, 3, 4], &[9, 1, 5, 3], 1);
    assert_eq!((compared, mismatched, missing), (3, 1, 1));
    let first = first.unwrap();
    assert_eq!((first.byte_offset, first.expected, first.actual), (1, 2, 5));
    assert_eq!(compare_at_offset(&[1, 2], &[1], 5).0, 0);
}

#[test]
fn short_sync_needs_at_least_one_frame() {
    assert_eq!(find_short_frame_aligned_sync(48_000, 0, &[1, 2, 3], &[1, 2, 3]), None);
    assert_eq!(find_short_frame_aligned_sync(48_000, 4, &[1, 2], &[1, 2, 3, 4]), None);
}

#[test]
fn pattern_has_whole_frames_and_known_first_samples() {
    let p16 = generate_pattern(10, SampleWidth::Bits16);
    assert_eq!(p16.len(), 40);
    let p24 = generate_pattern(10, SampleWidth::Bits24);
    assert_eq!(p24.len(), 60);
    let p32 = generate_pattern(10, SampleWidth::Bits32);
    assert_eq!(p32.len(), 80);
    // The 16-bit samples stay within three quarters of full scale.
    for chunk in p16.chunks_exact(2) {
        let v = i16::from_le_bytes([chunk[0], chunk[1]]) as i32;
        assert!(v.abs() <= 0x8000 * 3 / 4);
    }
    // The same position gives the same value in every run.
    assert_eq!(generate_pattern(10, SampleWidth::Bits16), p16);
}

#[test]
fn read_i24_sign_extends() {
    assert_eq!(read_i24(&[0x01, 0x00, 0x00]), 1);
    assert_eq!(read_i24(&[0xff, 0xff, 0xff]), -1);
    assert_eq!(read_i24(&[0x00, 0x00, 0x80]), -0x80_0000);
    assert_eq!(read_i24(&[0xff, 0xff, 0x7f]), 0x7f_ffff);
    assert_eq!(decode_samples(&[0xff, 0xff, 0x01, 0x00, 0x07], SampleWidth::Bits16), vec![-1, 1]);
    assert_eq!(decode_samples(&[0x00, 0x00, 0x00, 0x80], SampleWidth::Bits32), vec![i32::MIN]);
}

#[test]
fn sample_width_and_rate_tables() {
    assert_eq!(SampleRate::from_hz(88_200).unwrap().hz(), 88_200);
    assert_eq!(SampleRate::matrix_order(), [SampleRate::R96000, SampleRate::R88200, SampleRate::R48000, SampleRate::R44100]);
    assert_eq!(SampleWidth::matrix_order(), [SampleWidth::Bits32, SampleWidth::Bits24, SampleWidth::Bits16]);
    assert_eq!(SampleWidth::from_bits(24).unwrap().bytes_per_sample(), 3);
    assert!(SampleWidth::from_bits(20).is_err());
    assert!(!SampleWidth::Bits32.supports_sample_rate(SampleRate::R88200));
    assert_eq!(SampleRate::R44100.frames_from_ms(10), 441);
    assert_eq!(SampleRate::R44100.frames_from_ms(1), 45);
    assert_eq!(SampleRate::default(), SampleRate::R48000);
    assert_eq!(SampleWidth::default().bits(), 16);
}

#[test]
fn polling_sleeps_half_a_period() {
    assert_eq!(polling_sleep(100_000), std::time::Duration::from_millis(5));
    assert_eq!(polling_sleep(0), std::time::Duration::from_nanos(50));
    assert_eq!(polling_sleep(-5), std::time::Duration::from_nanos(50));
}

#[test]
fn command_line_choices_map_to_modes() {
    assert_eq!(timing_arg(TimingArg::Events), StreamTiming::Events);
    assert_eq!(capture_mode_arg(CaptureModeArg::Shared), CaptureMode::Shared);
    assert_eq!(shared_format_arg(SharedFormatArg::SetKeep), SharedFormatMode::SetKeep);
    let cases = matrix_cases();
    assert_eq!(cases.len(), 10);
    assert_eq!(cases[0], (96_000, 24));
    assert_eq!(cases[4], (48_000, 32));
    assert_eq!(cases[9], (44_100, 16));
}

fn summary(name: &str) -> DeviceSummary {
    DeviceSummary {
        direction: "Render".to_string(),
        id: format!("{{id-{name}}}"),
        friendly_name: name.to_string(),
        interface_name: "USB".to_string(),
        description: "Speakers".to_string(),
        device_format: None,
    }
}

#[test]
fn devices_match_query_ignoring_ascii_case() {
    assert_eq!(ascii_lowercase(b"Pico 2 UAC1"), b"pico 2 uac1".to_vec());
    let pico = summary("Pico 2 UAC1 Loopback");
    assert!(device_matches(&pico, &"pico 2 uac1 loopback".to_string()));
    assert!(!device_matches(&pico, &"realtek".to_string()));
    let devices = vec![summary("Realtek Audio"), pico, summary("Pico 2 UAC1 Loopback (2)")];
    assert_eq!(choose_device(&devices, &"realtek".to_string()), DeviceChoice::One(0));
    assert_eq!(choose_device(&devices, &"nothing".to_string()), DeviceChoice::NoMatch);
    assert_eq!(choose_device(&devices, &"PICO".to_string()), DeviceChoice::Ambiguous(vec![1, 2]));
}

#[test]
fn stream_format_checks_follow_the_requested_format() {
    let format = DeviceFormat { samples_per_sec: 48_000, channels: 2, bits_per_sample: 24, valid_bits_per_sample: 0 };
    assert_eq!(verify_exact_format(&format, Some(true), 48_000, 24), Ok(()));
    assert_eq!(
        verify_exact_format(&format, Some(true), 44_100, 24),
        Err(FormatMismatch::SampleRate { requested: 44_100, got: 48_000 })
    );
    let padded = DeviceFormat { valid_bits_per_sample: 20, ..format };
    assert_eq!(
        verify_exact_format(&padded, Some(true), 48_000, 24),
        Err(FormatMismatch::ValidWidth { requested: 24, got: 20 })
    );
    // The subtype is checked only after every numeric field matches.
    assert_eq!(verify_exact_format(&format, Some(false), 48_000, 24), Err(FormatMismatch::NotIntegerPcm));
    assert_eq!(verify_exact_format(&format, None, 48_000, 24), Err(FormatMismatch::UnreadableSubformat));
    assert_eq!(
        verify_exact_format(&padded, Some(false), 48_000, 24),
        Err(FormatMismatch::ValidWidth { requested: 24, got: 20 })
    );
    let mono = DeviceFormat { channels: 1, ..format };
    assert_eq!(verify_exact_format(&mono, None, 48_000, 24), Err(FormatMismatch::Channels { requested: 2, got: 1 }));
    let wide = DeviceFormat { bits_per_sample: 32, ..format };
    assert_eq!(
        verify_exact_format(&wide, Some(true), 48_000, 24),
        Err(FormatMismatch::ContainerWidth { requested: 24, got: 32 })
    );
    assert!(device_format_matches_config(&format, 48_000, 24));
    assert!(!device_format_matches_config(&padded, 48_000, 24));
}

#[test]
fn restore_is_owed_only_in_set_restore_mode() {
    let guard = SharedFormatGuard::after_switch("ep".to_string(), vec![1, 2], SharedFormatMode::SetRestore);
    assert_eq!(guard.restore(), Some(("ep".to_string(), vec![1, 2])));
    let guard = SharedFormatGuard::after_switch("ep".to_string(), vec![1, 2], SharedFormatMode::SetKeep);
    assert_eq!(guard.restore(), None);
}

#[test]
fn render_chunk_pads_after_the_pattern() {
    assert_eq!(render_chunk(&[1, 2, 3, 4, 5, 6], 2, 2, 2), vec![5, 6, 0, 0]);
    assert_eq!(render_chunk(&[1, 2], 2, 3, 1), vec![0, 0]);
    let mut captured = vec![7];
    append_capture(&mut captured, &[1, 2, 3], 2, false);
    append_capture(&mut captured, &[1, 2, 3], 2, true);
    assert_eq!(captured, vec![7, 1, 2, 0, 0]);
}
