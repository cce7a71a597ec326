//! The pure parts of the render and capture loops: format acceptance,
//! stream-mode choice, and how data moves into and out of the device.

use vstd::prelude::*;
use crate::check::shared_format::{CHANNELS, DeviceFormat};
use crate::check::types::{CaptureMode, SampleRate, StreamStats, StreamTiming, frames_in_ms, hz_of};

verus! {

/// Why an opened stream's format is not exactly the requested one.
#[derive(Clone, Copy, Debug, PartialEq, Eq, Structural)]
#[allow(inconsistent_fields)]
pub enum FormatMismatch {
    SampleRate { requested: u32, got: u32 },
    Channels { requested: u16, got: u16 },
    ContainerWidth { requested: u16, got: u16 },
    ValidWidth { requested: u16, got: u16 },
    /// The format's sample subtype could not be read.
    UnreadableSubformat,
    /// The samples are not integer PCM.
    NotIntegerPcm,
}

/// Checks, in this order, the rate, the channel count, the container width,
/// the valid width (zero meaning "same as the container") and the sample
/// subtype of a stream format against the requested stereo integer format.
/// `integer_pcm` is what reading the subtype gave: whether it is integer
/// PCM, or `None` when it could not be read.
pub fn verify_exact_format(format: &DeviceFormat, integer_pcm: Option<bool>, rate: u32, bits: u16) -> (r: Result<(), FormatMismatch>)
    ensures
        format.samples_per_sec != rate ==> r == Err::<(), FormatMismatch>(FormatMismatch::SampleRate { requested: rate, got: format.samples_per_sec }),
        format.samples_per_sec == rate && format.channels != CHANNELS ==> r == Err::<(), FormatMismatch>(FormatMismatch::Channels { requested: CHANNELS, got: format.channels }),
        format.samples_per_sec == rate && format.channels == CHANNELS && format.bits_per_sample != bits
            ==> r == Err::<(), FormatMismatch>(FormatMismatch::ContainerWidth { requested: bits, got: format.bits_per_sample }),
        format.samples_per_sec == rate && format.channels == CHANNELS && format.bits_per_sample == bits
            ==> (format.valid_bits_per_sample != 0 && format.valid_bits_per_sample != bits
                ==> r == Err::<(), FormatMismatch>(FormatMismatch::ValidWidth { requested: bits, got: format.valid_bits_per_sample })),
        crate::check::shared_format::format_matches(*format, rate, bits) ==> match integer_pcm {
            None => r == Err::<(), FormatMismatch>(FormatMismatch::UnreadableSubformat),
            Some(false) => r == Err::<(), FormatMismatch>(FormatMismatch::NotIntegerPcm),
            Some(true) => r is Ok,
        },
        r is Ok <==> crate::check::shared_format::format_matches(*format, rate, bits) && integer_pcm == Some(true),
{
    if format.samples_per_sec != rate {
        return Err(FormatMismatch::SampleRate { requested: rate, got: format.samples_per_sec });
    }
    if format.channels != CHANNELS {
        return Err(FormatMismatch::Channels { requested: CHANNELS, got: format.channels });
    }
    if format.bits_per_sample != bits {
        return Err(FormatMismatch::ContainerWidth { requested: bits, got: format.bits_per_sample });
    }
    let valid_bits = format.valid_bits_per_sample;
    if valid_bits != 0 && valid_bits != bits {
        return Err(FormatMismatch::ValidWidth { requested: bits, got: valid_bits });
    }
    match integer_pcm {
        None => Err(FormatMismatch::UnreadableSubformat),
        Some(false) => Err(FormatMismatch::NotIntegerPcm),
        Some(true) => Ok(()),
    }
}

/// Render always runs exclusive; capture runs in the configured mode.
pub fn effective_capture_mode(is_capture: bool, configured: CaptureMode) -> (m: CaptureMode)
    ensures
        is_capture ==> m == configured,
        !is_capture ==> m == CaptureMode::Exclusive,
{
    if is_capture {
        configured
    } else {
        CaptureMode::Exclusive
    }
}

/// How a stream is initialized.
#[derive(Clone, Copy, Debug, PartialEq, Eq, Structural)]
pub enum StreamModeChoice {
    PollingExclusive { buffer_duration_hns: i64, period_hns: i64 },
    EventsExclusive { period_hns: i64 },
    PollingShared { autoconvert: bool, buffer_duration_hns: i64 },
    EventsShared { autoconvert: bool, buffer_duration_hns: i64 },
}

/// An exclusive stream at the aligned period: polling buffers hold
/// `buffer_periods` periods.
pub fn exclusive_stream_mode(timing: StreamTiming, buffer_periods: u32, period_hns: i64) -> (r: (StreamModeChoice, i64))
    requires
        timing == StreamTiming::Polling ==> i64::MIN <= period_hns * buffer_periods <= i64::MAX,
    ensures
        r.1 == period_hns,
        timing == StreamTiming::Polling ==> r.0 == (StreamModeChoice::PollingExclusive {
            buffer_duration_hns: (period_hns * buffer_periods) as i64,
            period_hns,
        }),
        timing == StreamTiming::Events ==> r.0 == (StreamModeChoice::EventsExclusive { period_hns }),
{
    let mode = match timing {
        StreamTiming::Polling => {
            let buffer_duration_hns = period_hns * (buffer_periods as i64);
            StreamModeChoice::PollingExclusive { buffer_duration_hns, period_hns }
        },
        StreamTiming::Events => StreamModeChoice::EventsExclusive { period_hns },
    };
    (mode, period_hns)
}

/// A shared stream without format conversion, buffering `buffer_periods`
/// of the desired period (never below the device minimum); it runs at the
/// device's default period.
pub fn shared_stream_mode(
    timing: StreamTiming,
    buffer_periods: u32,
    desired_period_hns: i64,
    default_period_hns: i64,
    min_period_hns: i64,
) -> (r: (StreamModeChoice, i64))
    requires
        i64::MIN <= (if desired_period_hns >= min_period_hns { desired_period_hns } else { min_period_hns }) * buffer_periods <= i64::MAX,
    ensures
        r.1 == default_period_hns,
        ({
            let buffer = ((if desired_period_hns >= min_period_hns { desired_period_hns } else { min_period_hns }) * buffer_periods) as i64;
            &&& timing == StreamTiming::Polling ==> r.0 == (StreamModeChoice::PollingShared { autoconvert: false, buffer_duration_hns: buffer })
            &&& timing == StreamTiming::Events ==> r.0 == (StreamModeChoice::EventsShared { autoconvert: false, buffer_duration_hns: buffer })
        }),
{
    let period = if desired_period_hns >= min_period_hns { desired_period_hns } else { min_period_hns };
    let buffer_duration_hns = period * (buffer_periods as i64);
    let mode = match timing {
        StreamTiming::Polling => StreamModeChoice::PollingShared { autoconvert: false, buffer_duration_hns },
        StreamTiming::Events => StreamModeChoice::EventsShared { autoconvert: false, buffer_duration_hns },
    };
    (mode, default_period_hns)
}

/// Frames rendered in all: the payload, then silence for the tail and one
/// device buffer so the payload drains.
pub fn render_total_frames(rate: SampleRate, tail_ms: u64, buffer_frames: u32, payload_frames: usize) -> (n: usize)
    requires
        hz_of(rate) * tail_ms <= u64::MAX,
        frames_in_ms(hz_of(rate) as int, tail_ms as int) as usize + buffer_frames + payload_frames <= usize::MAX,
    ensures
        n == payload_frames + frames_in_ms(hz_of(rate) as int, tail_ms as int) as usize + buffer_frames,
{
    let tail_frames = rate.frames_from_ms(tail_ms) + buffer_frames as usize;
    payload_frames + tail_frames
}

/// Frames to write now: what the device has room for, up to what is left.
pub fn frames_to_write(available: usize, total_frames: usize, frame_offset: usize) -> (n: usize)
    requires
        frame_offset <= total_frames,
    ensures
        n == if available <= total_frames - frame_offset { available as int } else { total_frames - frame_offset },
{
    let left = total_frames - frame_offset;
    if available <= left {
        available
    } else {
        left
    }
}

/// The bytes of `frames` frames starting at frame `frame_offset`: the
/// pattern where it lasts, silence after it.
pub open spec fn render_chunk_bytes(expected: Seq<u8>, bytes_per_frame: int, frame_offset: int, frames: int) -> Seq<u8> {
    let start = frame_offset * bytes_per_frame;
    Seq::new((frames * bytes_per_frame) as nat, |i: int| if start + i < expected.len() { expected[start + i] } else { 0u8 })
}

pub fn render_chunk(expected: &[u8], bytes_per_frame: usize, frame_offset: usize, frames: usize) -> (chunk: Vec<u8>)
    requires
        frame_offset * bytes_per_frame <= usize::MAX,
        frames * bytes_per_frame <= usize::MAX,
    ensures
        chunk@ == render_chunk_bytes(expected@, bytes_per_frame as int, frame_offset as int, frames as int),
{
    let byte_offset = frame_offset * bytes_per_frame;
    let byte_len = frames * bytes_per_frame;
    let ghost e = expected@;
    let mut chunk: Vec<u8> = Vec::new();
    let mut i: usize = 0;
    while i < byte_len
        invariant
            i <= byte_len,
            e == expected@,
            forall|k: int| 0 <= k < i ==> #[trigger] chunk@[k] == 0u8,
            chunk@.len() == i,
        decreases byte_len - i,
    {
        chunk.push(0);
        i += 1;
    }
    let elen = expected.len();
    if byte_offset < elen {
        let left = elen - byte_offset;
        let available = if left <= byte_len { left } else { byte_len };
        let mut k: usize = 0;
        while k < available
            invariant
                available <= byte_len,
                byte_offset + available <= e.len(),
                elen == e.len(),
                e == expected@,
                chunk@.len() == byte_len,
                k <= available,
                forall|j: int| 0 <= j < k ==> #[trigger] chunk@[j] == e[byte_offset + j],
                forall|j: int| k <= j < byte_len ==> #[trigger] chunk@[j] == 0u8,
            decreases available - k,
        {
            chunk.set(k, expected[byte_offset + k]);
            k += 1;
        }
    }
    assert(chunk@ =~= render_chunk_bytes(e, bytes_per_frame as int, frame_offset as int, frames as int));
    chunk
}

/// Frames to read now: what is waiting, up to one device buffer.
pub fn frames_to_read(padding: usize, buffer_frames: u32) -> (n: usize)
    ensures
        n == if padding <= buffer_frames { padding as int } else { buffer_frames as int },
{
    if padding <= buffer_frames as usize {
        padding
    } else {
        buffer_frames as usize
    }
}

/// Appends one captured packet: zeros for a packet the device flags as
/// silent, else the bytes read.
pub fn append_capture(captured: &mut Vec<u8>, scratch: &[u8], bytes_read: usize, silent: bool)
    requires
        !silent ==> bytes_read <= scratch@.len(),
    ensures
        silent ==> final(captured)@ == old(captured)@ + Seq::new(bytes_read as nat, |i: int| 0u8),
        !silent ==> final(captured)@ == old(captured)@ + scratch@.take(bytes_read as int),
{
    let ghost start = captured@;
    let mut i: usize = 0;
    while i < bytes_read
        invariant
            i <= bytes_read,
            !silent ==> bytes_read <= scratch@.len(),
            silent ==> captured@ == start + Seq::new(i as nat, |j: int| 0u8),
            !silent ==> captured@ == start + scratch@.take(i as int),
        decreases bytes_read - i,
    {
        if silent {
            captured.push(0);
            assert(Seq::new(i as nat + 1, |j: int| 0u8) =~= Seq::new(i as nat, |j: int| 0u8).push(0u8));
        } else {
            captured.push(scratch[i]);
            assert(scratch@.take(i as int + 1) =~= scratch@.take(i as int).push(scratch@[i as int]));
        }
        i += 1;
    }
}

/// Counts one captured packet in the stream statistics.
pub fn record_capture(stats: &mut StreamStats, frames_read: u32, discontinuity: bool, timestamp_error: bool, silent: bool)
    requires
        old(stats).discontinuities < usize::MAX,
        old(stats).timestamp_errors < usize::MAX,
        old(stats).silent_buffers < usize::MAX,
        old(stats).frames + frames_read <= usize::MAX,
    ensures
        final(stats).discontinuities == old(stats).discontinuities + if discontinuity { 1int } else { 0int },
        final(stats).timestamp_errors == old(stats).timestamp_errors + if timestamp_error { 1int } else { 0int },
        final(stats).silent_buffers == old(stats).silent_buffers + if silent { 1int } else { 0int },
        final(stats).frames == old(stats).frames + frames_read,
        final(stats).buffer_frames == old(stats).buffer_frames,
        final(stats).period_hns == old(stats).period_hns,
{
    if discontinuity {
        stats.discontinuities += 1;
    }
    if timestamp_error {
        stats.timestamp_errors += 1;
    }
    if silent {
        stats.silent_buffers += 1;
    }
    stats.frames += frames_read as usize;
}

} // verus!
