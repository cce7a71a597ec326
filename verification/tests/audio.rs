use pico2_uac1_loopback::audio::{
    AudioFormats, AudioState, AudioStreamingAlternateSetting, PacketClock, SampleRate, StreamDirection,
    StreamFormat, DEFAULT_SAMPLE_RATE, MAX_PACKET_SIZE,
};

#[test]
fn audio_streaming_alternate_settings_map_to_audio_frame_sizes() {
    assert_eq!(AudioStreamingAlternateSetting::Inactive.bytes_per_audio_frame(), 0);
    assert_eq!(AudioStreamingAlternateSetting::Pcm16.bytes_per_audio_frame(), 4);
    assert_eq!(AudioStreamingAlternateSetting::Pcm24.bytes_per_audio_frame(), 6);
    assert_eq!(AudioStreamingAlternateSetting::Pcm32.bytes_per_audio_frame(), 8);
}

#[test]
fn default_formats_are_inactive_48k_streams() {
    assert_eq!(
        AudioFormats::default(),
        AudioFormats::new(
            StreamFormat::new(AudioStreamingAlternateSetting::Inactive, SampleRate::R48000),
            StreamFormat::new(AudioStreamingAlternateSetting::Inactive, SampleRate::R48000)
        )
    );
}

#[test]
fn sample_rate_from_hz_accepts_only_advertised_rates() {
    assert_eq!(SampleRate::from_hz(44_100), Some(SampleRate::R44100));
    assert_eq!(SampleRate::from_hz(48_000), Some(SampleRate::R48000));
    assert_eq!(SampleRate::from_hz(88_200), Some(SampleRate::R88200));
    assert_eq!(SampleRate::from_hz(96_000), Some(SampleRate::R96000));
    assert_eq!(SampleRate::from_hz(45_000), None);
    assert_eq!(SampleRate::from_hz(50_000), None);
    assert_eq!(SampleRate::from_hz(90_000), None);
    assert_eq!(SampleRate::from_hz(95_000), None);
}

#[test]
fn sample_rate_support_depends_on_alt_setting() {
    assert!(AudioStreamingAlternateSetting::Pcm32.supports_sample_rate(SampleRate::R44100));
    assert!(AudioStreamingAlternateSetting::Pcm32.supports_sample_rate(SampleRate::R48000));
    assert!(!AudioStreamingAlternateSetting::Pcm32.supports_sample_rate(SampleRate::R88200));
    assert!(!AudioStreamingAlternateSetting::Pcm32.supports_sample_rate(SampleRate::R96000));
    assert!(AudioStreamingAlternateSetting::Pcm24.supports_sample_rate(SampleRate::R96000));
    assert_eq!(
        AudioStreamingAlternateSetting::Pcm32.sample_rate_or_default(SampleRate::R96000),
        DEFAULT_SAMPLE_RATE
    );
}

#[test]
fn packet_clock_emits_fractional_44k1_cadence() {
    let mut clock = PacketClock::new();
    let mut total = 0;

    for index in 0..10 {
        let len = clock.next_len(44_100, AudioStreamingAlternateSetting::Pcm16.bytes_per_audio_frame());
        total += len;
        if index == 9 {
            assert_eq!(len, 45 * 4);
        } else {
            assert_eq!(len, 44 * 4);
        }
    }

    assert_eq!(total, 441 * 4);
}

#[test]
fn packet_clock_emits_fractional_88k2_cadence() {
    let mut clock = PacketClock::new();
    let mut total = 0;

    for index in 0..5 {
        let len = clock.next_len(88_200, AudioStreamingAlternateSetting::Pcm24.bytes_per_audio_frame());
        total += len;
        if index == 4 {
            assert_eq!(len, 89 * 6);
        } else {
            assert_eq!(len, 88 * 6);
        }
    }

    assert_eq!(total, 441 * 6);
}

#[test]
fn packet_clock_emits_32bit_fractional_44k1_cadence() {
    let mut clock = PacketClock::new();
    let mut total = 0;

    for index in 0..10 {
        let len = clock.next_len(44_100, AudioStreamingAlternateSetting::Pcm32.bytes_per_audio_frame());
        total += len;
        if index == 9 {
            assert_eq!(len, 45 * 8);
        } else {
            assert_eq!(len, 44 * 8);
        }
    }

    assert_eq!(total, 441 * 8);
}

#[test]
fn packet_clock_resets_fractional_state_when_format_changes() {
    let mut clock = PacketClock::new();

    assert_eq!(clock.next_len(44_100, AudioStreamingAlternateSetting::Pcm16.bytes_per_audio_frame()), 44 * 4);
    assert_eq!(clock.next_len(48_000, AudioStreamingAlternateSetting::Pcm16.bytes_per_audio_frame()), 48 * 4);
    assert_eq!(clock.next_len(48_000, AudioStreamingAlternateSetting::Pcm24.bytes_per_audio_frame()), 48 * 6);
}

#[test]
fn loopback_only_matches_identical_active_formats() {
    let mut state = AudioState::new();
    assert!(!state.formats().loopback_format_matches());

    state.set_alternate_setting(StreamDirection::Out, AudioStreamingAlternateSetting::Pcm16);
    state.set_alternate_setting(StreamDirection::In, AudioStreamingAlternateSetting::Pcm16);
    assert!(state.formats().loopback_format_matches());

    state.set_alternate_setting(StreamDirection::In, AudioStreamingAlternateSetting::Pcm24);
    assert!(!state.formats().loopback_format_matches());

    state.set_alternate_setting(StreamDirection::In, AudioStreamingAlternateSetting::Pcm16);
    assert_eq!(
        state.set_rate(StreamDirection::In, SampleRate::R44100),
        Some(StreamFormat::new(AudioStreamingAlternateSetting::Pcm16, SampleRate::R44100))
    );
    assert!(!state.formats().loopback_format_matches());

    state.set_alternate_setting(StreamDirection::Out, AudioStreamingAlternateSetting::Pcm32);
    state.set_alternate_setting(StreamDirection::In, AudioStreamingAlternateSetting::Pcm32);
    assert_eq!(
        state.set_rate(StreamDirection::Out, SampleRate::R48000),
        Some(StreamFormat::new(AudioStreamingAlternateSetting::Pcm32, SampleRate::R48000))
    );
    assert_eq!(
        state.set_rate(StreamDirection::In, SampleRate::R48000),
        Some(StreamFormat::new(AudioStreamingAlternateSetting::Pcm32, SampleRate::R48000))
    );
    assert!(state.formats().loopback_format_matches());
}

#[test]
fn stream_format_snapshot_keeps_32bit_rate_within_packet_budget() {
    let mut state = AudioState::new();

    state.set_alternate_setting(StreamDirection::In, AudioStreamingAlternateSetting::Pcm24);
    assert_eq!(
        state.set_rate(StreamDirection::In, SampleRate::R96000),
        Some(StreamFormat::new(AudioStreamingAlternateSetting::Pcm24, SampleRate::R96000))
    );

    let stored = state.set_alternate_setting(StreamDirection::In, AudioStreamingAlternateSetting::Pcm32);
    let format = state.formats().in_;

    assert_eq!(stored.rate, SampleRate::R48000);
    assert_eq!(format.alternate_setting, AudioStreamingAlternateSetting::Pcm32);
    assert_eq!(format.rate, SampleRate::R48000);
    assert!(PacketClock::new().next_len(format.rate.hz(), format.bytes_per_audio_frame()) <= MAX_PACKET_SIZE);
}

#[test]
fn unsupported_rate_update_is_rejected_for_32bit_streams() {
    let mut state = AudioState::new();

    state.set_alternate_setting(StreamDirection::In, AudioStreamingAlternateSetting::Pcm32);

    assert_eq!(state.set_rate(StreamDirection::In, SampleRate::R96000), None);
    assert_eq!(
        state.formats().in_,
        StreamFormat::new(AudioStreamingAlternateSetting::Pcm32, SampleRate::R48000)
    );
}

#[test]
fn audio_formats_snapshot_contains_out_and_in_together() {
    let mut state = AudioState::new();

    state.set_alternate_setting(StreamDirection::Out, AudioStreamingAlternateSetting::Pcm24);
    assert_eq!(
        state.set_rate(StreamDirection::Out, SampleRate::R88200),
        Some(StreamFormat::new(AudioStreamingAlternateSetting::Pcm24, SampleRate::R88200))
    );
    state.set_alternate_setting(StreamDirection::In, AudioStreamingAlternateSetting::Pcm24);
    assert_eq!(
        state.set_rate(StreamDirection::In, SampleRate::R88200),
        Some(StreamFormat::new(AudioStreamingAlternateSetting::Pcm24, SampleRate::R88200))
    );

    let formats = state.formats();

    assert_eq!(formats.out, StreamFormat::new(AudioStreamingAlternateSetting::Pcm24, SampleRate::R88200));
    assert_eq!(formats.in_, StreamFormat::new(AudioStreamingAlternateSetting::Pcm24, SampleRate::R88200));
    assert!(formats.loopback_format_matches());
}

#[test]
fn alternate_setting_numbers_round_trip() {
    for number in 0..=3u8 {
        assert_eq!(AudioStreamingAlternateSetting::from_number(number).unwrap().number(), number);
    }
    assert_eq!(AudioStreamingAlternateSetting::from_number(4), None);
    assert_eq!(AudioStreamingAlternateSetting::from_number(255), None);
}

#[test]
fn sample_rate_hz_values() {
    assert_eq!(SampleRate::R44100.hz(), 44_100);
    assert_eq!(SampleRate::R48000.hz(), 48_000);
    assert_eq!(SampleRate::R88200.hz(), 88_200);
    assert_eq!(SampleRate::R96000.hz(), 96_000);
    assert_eq!(SampleRate::default(), SampleRate::R48000);
}

#[test]
fn stream_format_frame_bytes_follow_alternate_setting() {
    let format = StreamFormat::new(AudioStreamingAlternateSetting::Pcm24, SampleRate::R44100);
    assert_eq!(format.bytes_per_audio_frame(), 6);
    assert_eq!(StreamFormat::default().bytes_per_audio_frame(), 0);
}

#[test]
fn reset_returns_both_directions_to_default() {
    let mut state = AudioState::default();
    state.set_alternate_setting(StreamDirection::Out, AudioStreamingAlternateSetting::Pcm16);
    state.set_rate(StreamDirection::Out, SampleRate::R96000);
    state.reset();
    assert_eq!(state.formats(), AudioFormats::default());
}

#[test]
fn alternate_setting_keeps_supported_rate() {
    let mut state = AudioState::new();
    state.set_alternate_setting(StreamDirection::Out, AudioStreamingAlternateSetting::Pcm16);
    state.set_rate(StreamDirection::Out, SampleRate::R44100);
    let stored = state.set_alternate_setting(StreamDirection::Out, AudioStreamingAlternateSetting::Pcm32);
    assert_eq!(stored, StreamFormat::new(AudioStreamingAlternateSetting::Pcm32, SampleRate::R44100));
    assert_eq!(state.formats().in_, StreamFormat::default());
}

#[test]
fn rate_on_zero_bandwidth_setting_is_kept() {
    let mut state = AudioState::new();
    assert_eq!(
        state.set_rate(StreamDirection::In, SampleRate::R96000),
        Some(StreamFormat::new(AudioStreamingAlternateSetting::Inactive, SampleRate::R96000))
    );
    assert!(!state.formats().loopback_format_matches());
}

#[test]
fn packet_clock_48k_is_whole_frames_every_packet() {
    let mut clock = PacketClock::default();
    for _ in 0..20 {
        assert_eq!(clock.next_len(48_000, 6), 48 * 6);
    }
}

#[test]
fn packet_clock_cadence_law_over_a_second() {
    let mut clock = PacketClock::new();
    let mut frames = 0;
    for _ in 0..1000 {
        frames += clock.next_len(44_100, 1);
    }
    assert_eq!(frames, 44_100);
    // The second ends on a whole frame, so the next one repeats the cadence.
    let again: Vec<usize> = (0..10).map(|_| clock.next_len(44_100, 1)).collect();
    assert_eq!(again, vec![44, 44, 44, 44, 44, 44, 44, 44, 44, 45]);
}
