//! Decisions of the single-queue loopback tasks that run on the shared
//! format register: what OUT does with a payload and what IN sends.

use vstd::prelude::*;
use crate::audio::{
    AudioFormats, AudioStreamingAlternateSetting, PacketClock, StreamFormat, alt_frame_bytes, cadence_step_acc,
    cadence_step_frames, formats_match, rate_hz,
};
use crate::diag::{InFallbackCounters, InFallbackReason, add_in_fallback, reason_code};

verus! {

/// Largest loopback packet: 97 frames of 24-bit stereo.
pub const MAX_PACKET_SIZE: usize = 582;

#[derive(Clone, Copy, Debug, PartialEq, Eq, Structural)]
pub enum OutStep {
    /// An empty payload: nothing to do.
    Ignore,
    /// The formats do not loop back, or the payload is not whole frames:
    /// the queue is flushed.
    ClearQueue,
    /// Queue the payload (flushing first if the queue is full).
    Enqueue,
}

pub fn out_step(formats: AudioFormats, len: usize) -> (s: OutStep)
    ensures
        len == 0 ==> s == OutStep::Ignore,
        len != 0 ==> (s == OutStep::Enqueue <==> formats_match(formats) && alt_frame_bytes(formats.out.alternate_setting) != 0
            && (len as nat) % alt_frame_bytes(formats.out.alternate_setting) == 0),
        len != 0 ==> s != OutStep::Ignore,
{
    if len == 0 {
        return OutStep::Ignore;
    }
    let bytes_per_audio_frame = formats.out.alternate_setting.bytes_per_audio_frame();
    if !formats.loopback_format_matches() || bytes_per_audio_frame == 0 || len % bytes_per_audio_frame != 0 {
        OutStep::ClearQueue
    } else {
        OutStep::Enqueue
    }
}

#[derive(Clone, Copy, Debug, PartialEq, Eq, Structural)]
pub enum InStep {
    /// The IN interface is at zero bandwidth: yield and look again.
    Wait,
    /// Send the oldest queued payload; if none is queued, fall back to
    /// silence for an empty queue.
    Loopback,
    /// Send silence because the two directions' formats differ (and flush
    /// the queue).
    Mismatch,
}

pub fn in_step(formats: AudioFormats) -> (s: InStep)
    ensures
        formats.in_.alternate_setting == AudioStreamingAlternateSetting::Inactive ==> s == InStep::Wait,
        formats.in_.alternate_setting != AudioStreamingAlternateSetting::Inactive ==> (formats_match(formats) ==> s
            == InStep::Loopback) && (!formats_match(formats) ==> s == InStep::Mismatch),
{
    if formats.in_.alternate_setting == AudioStreamingAlternateSetting::Inactive {
        return InStep::Wait;
    }
    if formats.loopback_format_matches() {
        InStep::Loopback
    } else {
        InStep::Mismatch
    }
}

/// Sizes one silence packet for the IN format with the packet clock and
/// records it in the fallback diagnostics.
pub fn in_fallback_len(
    clock: &mut PacketClock,
    counters: &mut InFallbackCounters,
    in_format: StreamFormat,
    reason: InFallbackReason,
) -> (len: usize)
    requires
        crate::audio::alt_supports(in_format.alternate_setting, in_format.rate),
    ensures
        ({
            let bytes = alt_frame_bytes(in_format.alternate_setting);
            let start = old(clock).start_accumulator(rate_hz(in_format.rate), bytes as usize);
            &&& len == cadence_step_frames(start, rate_hz(in_format.rate) as int) * bytes
            &&& final(clock).spec_accumulator() == cadence_step_acc(start, rate_hz(in_format.rate) as int)
            &&& final(clock).spec_rate_hz() == rate_hz(in_format.rate)
            &&& final(clock).spec_bytes_per_audio_frame() == bytes
        }),
        final(counters).packets == (old(counters).packets + 1) % 0x1_0000_0000,
        final(counters).bytes == (old(counters).bytes + len) % 0x1_0000_0000,
        final(counters).last_reason == reason_code(reason),
        len <= MAX_PACKET_SIZE,
{
    let bytes = in_format.alternate_setting.bytes_per_audio_frame();
    let hz = in_format.rate.hz();
    proof {
        use_type_invariant(&*clock);
        let start = clock.start_accumulator(hz, bytes);
        assert(start < 1000);
        let frames = cadence_step_frames(start, hz as int);
        let most = (999 + hz) / 1000;
        assert(0 <= frames <= most);
        assert(most * bytes <= 576) by {
            assert(bytes <= 8);
            assert(bytes == 8 ==> most <= 48);
            match in_format.rate {
                crate::audio::SampleRate::R44100 => assert(most == 45),
                crate::audio::SampleRate::R48000 => assert(most == 48),
                crate::audio::SampleRate::R88200 => assert(most == 89),
                crate::audio::SampleRate::R96000 => assert(most == 96),
            }
            assert(most <= 96);
            assert(bytes <= 6 ==> most * bytes <= 96 * 6) by (nonlinear_arith)
                requires
                    0 <= most <= 96,
                    0 <= bytes,
            ;
            assert(bytes == 8 ==> most * bytes <= 48 * 8) by (nonlinear_arith)
                requires
                    bytes == 8 ==> 0 <= most <= 48,
            ;
            assert(bytes == 0 || bytes == 4 || bytes == 6 || bytes == 8);
        }
        assert(frames * bytes <= MAX_PACKET_SIZE) by (nonlinear_arith)
            requires
                0 <= frames <= most,
                most * bytes <= 576,
                bytes >= 0,
        ;
    }
    let len = clock.next_len(hz, bytes);
    add_in_fallback(counters, reason, len);
    len
}

} // verus!
