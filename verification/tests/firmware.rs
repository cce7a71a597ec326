use pico2_uac1_loopback::audio::SampleRate;
use pico2_uac1_loopback::control::{
    get_or_configure_rate, requested_rate, AudioControl, AudioControlMap, ControlRequest, EndpointRateSnapshot,
    InResponse, OutResponse, RateUpdate, Recipient, RequestType, GET_CUR, GET_MAX, GET_MIN, GET_RES, SET_CUR,
};
use pico2_uac1_loopback::descriptors::{
    as_general, audio_control_descriptors, format_type_descriptor, sampling_frequency_control, AudioEntityId,
    ChannelConfig, TerminalType,
};
use pico2_uac1_loopback::diag::{add_in_fallback, in_fallback_packets, InFallbackCounters, InFallbackReason};
use pico2_uac1_loopback::diagnostics::{in_silence_packets, record_in_silence, LedHold, SilenceCounter};
use pico2_uac1_loopback::pcm::{
    self, audio_queue_index, config_descriptor_capacity, format_by_endpoint_slot, format_rate_count,
    format_slot_by_alternate_setting, max_audio_packet_bytes, max_rates_per_format, pcm_formats, SampleWidth,
    StreamDirection,
};
use pico2_uac1_loopback::streams::{
    apply_capture_rate, capture_next, init_audio_queues, playback_deliver, AudioPacket, AudioQueue, CaptureWrite,
    EndpointRate, PacketClock,
};

fn packet(value: u8) -> AudioPacket {
    let mut packet = AudioPacket::new();
    packet.push(value).unwrap();
    packet
}

fn packet_of(bytes: &[u8]) -> AudioPacket {
    AudioPacket::from_slice(bytes).unwrap()
}

#[test]
fn led_hold_extends_from_latest_activity() {
    let mut hold = LedHold::new(0, 3);

    assert!(!hold.step(0));
    assert!(hold.step(1));
    assert!(hold.step(1));

    assert!(hold.step(2));
    assert!(hold.step(2));
    assert!(hold.step(2));
    assert!(!hold.step(2));
}

#[test]
fn advertised_format_rates_have_unique_queues() {
    let mut seen = [false; pcm::FORMAT_RATE_COUNT];
    for (format_slot, format) in pcm_formats().iter().enumerate() {
        for &rate in format.rates {
            let queue = audio_queue_index(format_slot, rate).unwrap();
            assert!(!seen[queue]);
            seen[queue] = true;
        }
    }
    assert!(seen.into_iter().all(|value| value));
    assert_eq!(audio_queue_index(2, SampleRate::R96000), None);
}

#[test]
fn packet_clock_emits_fractional_cadence_and_resets() {
    let format = format_by_endpoint_slot(0).unwrap();
    let frame_bytes = format.audio_frame_bytes();
    let mut clock = PacketClock::new();
    let mut total = 0;

    for index in 0..10 {
        let len = clock.next_len(SampleRate::R44100, frame_bytes);
        total += len;
        assert_eq!(len, if index == 9 { 45 } else { 44 } * frame_bytes);
    }

    assert_eq!(total, 441 * frame_bytes);
    clock.reset();
    assert_eq!(clock.next_len(SampleRate::R44100, frame_bytes), 44 * frame_bytes);
}

#[test]
fn full_queue_discards_only_the_oldest_packet() {
    let mut queue = AudioQueue::new();
    for value in 0..=pcm::PACKET_QUEUE_CAPACITY {
        queue.push(packet(u8::try_from(value).unwrap()));
    }

    for value in 1..=pcm::PACKET_QUEUE_CAPACITY {
        assert_eq!(queue.pop().unwrap().as_slice(), &[u8::try_from(value).unwrap()]);
    }
    assert!(queue.pop().is_none());
}

#[test]
fn get_cur_sets_default_only_while_unset() {
    let mut rate_watch = EndpointRate::Unset;

    assert_eq!(get_or_configure_rate(&mut rate_watch, SampleRate::R48000), SampleRate::R48000);
    assert_eq!(rate_watch, EndpointRate::Configured(SampleRate::R48000));
    assert_eq!(get_or_configure_rate(&mut rate_watch, SampleRate::R44100), SampleRate::R48000);
}

#[test]
fn queue_overflow_is_flagged_until_taken_or_cleared() {
    let mut queue = AudioQueue::new();
    for value in 0..pcm::PACKET_QUEUE_CAPACITY {
        queue.push(packet(u8::try_from(value).unwrap()));
    }
    assert!(!queue.take_overflow());
    queue.push(packet(100));
    assert!(queue.take_overflow());
    assert!(!queue.take_overflow());
    assert_eq!(queue.pop().unwrap().as_slice(), &[1]);

    queue.push(packet(101));
    queue.push(packet(102));
    queue.clear();
    assert!(!queue.take_overflow());
}

#[test]
fn capture_reports_drops_of_its_queue_once() {
    let mut queues = init_audio_queues();
    let rate = Some(EndpointRate::Configured(SampleRate::R48000));
    for value in 0..=pcm::PACKET_QUEUE_CAPACITY {
        playback_deliver(&mut queues, 0, rate, packet_of(&[u8::try_from(value).unwrap(); 4]), 4);
    }
    let mut clock = PacketClock::new();
    match capture_next(&mut queues, 0, EndpointRate::Configured(SampleRate::R48000), &mut clock) {
        (CaptureWrite::Packet(p), true) => assert_eq!(p.as_slice(), &[1; 4]),
        _ => panic!("expected the oldest kept packet and the drop report"),
    }
    match capture_next(&mut queues, 0, EndpointRate::Configured(SampleRate::R48000), &mut clock) {
        (CaptureWrite::Packet(p), false) => assert_eq!(p.as_slice(), &[2; 4]),
        _ => panic!("the drop is reported only once"),
    }

    // Selecting the rate clears its queue and the pending report.
    for value in 0..=pcm::PACKET_QUEUE_CAPACITY {
        playback_deliver(&mut queues, 0, rate, packet_of(&[u8::try_from(value).unwrap(); 4]), 4);
    }
    apply_capture_rate(&mut queues, 0, EndpointRate::Configured(SampleRate::R48000), &mut clock);
    assert!(matches!(
        capture_next(&mut queues, 0, EndpointRate::Configured(SampleRate::R48000), &mut clock),
        (CaptureWrite::Silence(_), false)
    ));
}

#[test]
fn queue_clear_empties_only_that_queue() {
    let mut queue = AudioQueue::new();
    queue.push(packet(1));
    queue.push(packet(2));
    queue.clear();
    assert!(queue.pop().is_none());
}

#[test]
fn format_table_values() {
    let formats = pcm_formats();
    assert_eq!(formats.len(), pcm::FORMAT_COUNT);
    assert_eq!(formats[0].max_packet_size(), 388);
    assert_eq!(formats[1].max_packet_size(), 582);
    assert_eq!(formats[2].max_packet_size(), 392);
    assert_eq!(max_audio_packet_bytes(), 582);
    assert_eq!(format_rate_count(), 10);
    assert_eq!(max_rates_per_format(), 4);
    assert_eq!(config_descriptor_capacity(), 396);
    assert_eq!(formats[2].max_rate(), SampleRate::R48000);
    assert_eq!(formats[0].min_rate(), SampleRate::R44100);
    assert_eq!(formats[2].default_rate(), SampleRate::R48000);
    assert!(!formats[2].supports(SampleRate::R88200));
    assert!(formats[1].supports(SampleRate::R88200));
    assert_eq!(formats[1].audio_frame_bytes(), 6);
    assert_eq!(SampleWidth::Bits24.byte_width(), 3);
    assert_eq!(SampleWidth::Bits32.bit_resolution(), 32);
    assert!(format_by_endpoint_slot(3).is_none());
}

#[test]
fn alternate_settings_map_to_format_slots() {
    assert_eq!(format_slot_by_alternate_setting(0), None);
    assert_eq!(format_slot_by_alternate_setting(1), Some(0));
    assert_eq!(format_slot_by_alternate_setting(3), Some(2));
    assert_eq!(format_slot_by_alternate_setting(4), None);
}

#[test]
fn queue_indices_are_laid_out_by_format() {
    assert_eq!(audio_queue_index(0, SampleRate::R44100), Some(0));
    assert_eq!(audio_queue_index(0, SampleRate::R96000), Some(3));
    assert_eq!(audio_queue_index(1, SampleRate::R44100), Some(4));
    assert_eq!(audio_queue_index(2, SampleRate::R48000), Some(9));
    assert_eq!(audio_queue_index(3, SampleRate::R48000), None);
}

#[test]
fn playback_queues_whole_frames_at_the_configured_rate() {
    let mut queues = init_audio_queues();
    let configured = Some(EndpointRate::Configured(SampleRate::R48000));
    // 24-bit stereo: 6-byte frames.
    assert_eq!(playback_deliver(&mut queues, 1, configured, packet_of(&[1, 2, 3, 4, 5, 6, 7, 8]), 6), Some(5));
    assert_eq!(playback_deliver(&mut queues, 1, configured, packet_of(&[1, 2, 3, 4, 5]), 5), None);
    assert_eq!(playback_deliver(&mut queues, 1, configured, packet_of(&[]), 0), None);
    assert_eq!(playback_deliver(&mut queues, 1, Some(EndpointRate::Unset), packet_of(&[1; 6]), 6), None);
    assert_eq!(playback_deliver(&mut queues, 1, None, packet_of(&[1; 6]), 6), None);

    let mut clock = PacketClock::new();
    match capture_next(&mut queues, 1, EndpointRate::Configured(SampleRate::R48000), &mut clock) {
        (CaptureWrite::Packet(p), false) => assert_eq!(p.as_slice(), &[1, 2, 3, 4, 5, 6]),
        _ => panic!("expected the queued packet"),
    }
    match capture_next(&mut queues, 1, EndpointRate::Configured(SampleRate::R48000), &mut clock) {
        (CaptureWrite::Silence(len), false) => assert_eq!(len, 48 * 6),
        _ => panic!("expected silence"),
    }
    assert!(matches!(capture_next(&mut queues, 1, EndpointRate::Unset, &mut clock), (CaptureWrite::ZeroLength, false)));
}

#[test]
fn capture_rate_change_clears_only_the_new_queue() {
    let mut queues = init_audio_queues();
    let rate48 = Some(EndpointRate::Configured(SampleRate::R48000));
    let rate44 = Some(EndpointRate::Configured(SampleRate::R44100));
    playback_deliver(&mut queues, 0, rate48, packet_of(&[9; 4]), 4);
    playback_deliver(&mut queues, 0, rate44, packet_of(&[7; 4]), 4);
    let mut clock = PacketClock::new();
    apply_capture_rate(&mut queues, 0, EndpointRate::Configured(SampleRate::R44100), &mut clock);
    match capture_next(&mut queues, 0, EndpointRate::Configured(SampleRate::R48000), &mut clock) {
        (CaptureWrite::Packet(p), _) => assert_eq!(p.as_slice(), &[9; 4]),
        _ => panic!("48 kHz queue must be untouched"),
    }
    match capture_next(&mut queues, 0, EndpointRate::Configured(SampleRate::R44100), &mut clock) {
        (CaptureWrite::Silence(len), _) => assert_eq!(len, 44 * 4),
        _ => panic!("44.1 kHz queue must be empty"),
    }
}

#[test]
fn requested_rate_needs_exactly_three_bytes() {
    assert_eq!(requested_rate(&[0x80, 0xbb, 0x00]), Some(SampleRate::R48000));
    assert_eq!(requested_rate(&[0x44, 0xac, 0x00]), Some(SampleRate::R44100));
    assert_eq!(requested_rate(&[0x80, 0xbb]), None);
    assert_eq!(requested_rate(&[0x80, 0xbb, 0x00, 0x00]), None);
    assert_eq!(requested_rate(&[0x81, 0xbb, 0x00]), None);
}

fn control() -> AudioControl {
    AudioControl::new(AudioControlMap {
        playback_interface: 1,
        capture_interface: 2,
        playback_endpoint_addresses: [0x01, 0x02, 0x03],
        capture_endpoint_addresses: [0x81, 0x82, 0x83],
    })
}

fn sampling(request: u8, index: u16) -> ControlRequest {
    ControlRequest {
        request_type: RequestType::Class,
        recipient: Recipient::Endpoint,
        request,
        value: 0x0100,
        index,
    }
}

#[test]
fn set_cur_accepts_only_rates_of_the_endpoint_format() {
    let control = control();
    assert_eq!(
        control.control_out(sampling(SET_CUR, 0x83), &[0x80, 0xbb, 0x00]),
        Some((
            OutResponse::Accepted,
            Some(RateUpdate {
                direction: StreamDirection::Capture,
                slot: 2,
                rate: EndpointRate::Configured(SampleRate::R48000)
            })
        ))
    );
    assert_eq!(
        control.control_out(sampling(SET_CUR, 0x83), &[0x00, 0x77, 0x01]),
        Some((OutResponse::Rejected, None))
    );
    assert_eq!(control.control_out(sampling(SET_CUR, 0x05), &[0x80, 0xbb, 0x00]), None);
    let mut vendor = sampling(SET_CUR, 0x01);
    vendor.request_type = RequestType::Vendor;
    assert_eq!(control.control_out(vendor, &[0x80, 0xbb, 0x00]), None);
}

#[test]
fn get_requests_report_three_byte_frequencies() {
    let control = control();
    let snapshot = EndpointRateSnapshot {
        playback: [EndpointRate::Unset, EndpointRate::Configured(SampleRate::R96000), EndpointRate::Unset],
        capture: [EndpointRate::Unset; 3],
    };
    assert_eq!(
        control.control_in(sampling(GET_CUR, 0x02), 3, &snapshot),
        Some((InResponse::Accepted([0x00, 0x77, 0x01]), None))
    );
    assert_eq!(
        control.control_in(sampling(GET_CUR, 0x81), 3, &snapshot),
        Some((
            InResponse::Accepted([0x80, 0xbb, 0x00]),
            Some(RateUpdate {
                direction: StreamDirection::Capture,
                slot: 0,
                rate: EndpointRate::Configured(SampleRate::R48000)
            })
        ))
    );
    assert_eq!(
        control.control_in(sampling(GET_MIN, 0x03), 3, &snapshot),
        Some((InResponse::Accepted([0x44, 0xac, 0x00]), None))
    );
    assert_eq!(
        control.control_in(sampling(GET_MAX, 0x03), 3, &snapshot),
        Some((InResponse::Accepted([0x80, 0xbb, 0x00]), None))
    );
    assert_eq!(
        control.control_in(sampling(GET_RES, 0x03), 64, &snapshot),
        Some((InResponse::Accepted([1, 0, 0]), None))
    );
    assert_eq!(control.control_in(sampling(GET_RES, 0x03), 2, &snapshot), Some((InResponse::Rejected, None)));
    assert_eq!(control.control_in(sampling(0x85, 0x03), 3, &snapshot), Some((InResponse::Rejected, None)));
}

#[test]
fn alternate_setting_notifies_the_selected_endpoint() {
    let control = control();
    assert_eq!(control.set_alternate_setting(1, 2), Some((StreamDirection::Playback, 1)));
    assert_eq!(control.set_alternate_setting(2, 3), Some((StreamDirection::Capture, 2)));
    assert_eq!(control.set_alternate_setting(2, 0), None);
    assert_eq!(control.set_alternate_setting(7, 1), None);
    assert!(control.direction_for_interface(0).is_none());
}

#[test]
fn audio_control_descriptors_fill_the_declared_total_length() {
    let descriptors = audio_control_descriptors(1, 2);
    let total: usize = descriptors.iter().map(|d| d.len() + 2).sum();
    assert_eq!(total, 52);
    assert_eq!(descriptors[0], vec![0x01, 0x00, 0x01, 52, 0, 0x02, 1, 2]);
    assert_eq!(descriptors[1], vec![0x02, 1, 0x01, 0x01, 0x00, 2, 0x03, 0x00, 0x00, 0x00]);
    assert_eq!(descriptors[2], vec![0x03, 2, 0x03, 0x06, 0x00, 1, 0x00]);
    assert_eq!(descriptors[4], vec![0x03, 4, 0x01, 0x01, 0x00, 3, 0x00]);
    assert_eq!(TerminalType::LineConnector.to_le_bytes(), [0x03, 0x06]);
    assert_eq!(ChannelConfig::stereo().to_le_bytes(), [0x03, 0x00]);
}

#[test]
fn format_descriptor_lists_24_bit_rates() {
    let formats = pcm_formats();
    assert_eq!(
        format_type_descriptor(&formats[2]),
        vec![0x02, 0x01, 2, 4, 32, 2, 0x44, 0xac, 0x00, 0x80, 0xbb, 0x00]
    );
    assert_eq!(format_type_descriptor(&formats[0]).len(), 18);
    assert_eq!(as_general(AudioEntityId(1)), vec![0x01, 1, 0x01, 0x01, 0x00]);
    assert_eq!(sampling_frequency_control(), vec![0x01, 0x01, 0x00, 0x00, 0x00]);
}

#[test]
fn diagnostic_counters_count_fallbacks_and_silence() {
    let mut counters = InFallbackCounters::new();
    add_in_fallback(&mut counters, InFallbackReason::QueueEmpty, 192);
    add_in_fallback(&mut counters, InFallbackReason::FormatMismatch, 8);
    assert_eq!(in_fallback_packets(&counters), 2);
    assert_eq!(counters.bytes, 200);
    assert_eq!(counters.last_reason, 2);
    assert_eq!(InFallbackReason::QueueEmpty.code(), 1);

    let mut silence = SilenceCounter::new();
    record_in_silence(&mut silence);
    assert_eq!(in_silence_packets(&silence), 1);
    silence.packets = u32::MAX;
    record_in_silence(&mut silence);
    assert_eq!(in_silence_packets(&silence), 0);
}
