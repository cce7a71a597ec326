//! Stream formats of the two AudioStreaming interfaces and the packed
//! format register that holds both of them.

use vstd::prelude::*;

verus! {

/// Number of interleaved channels in every stream.
pub const CHANNEL_COUNT: u8 = 2;

/// Rates advertised by the 16-bit and 24-bit alternate settings.
pub open spec fn supported_sample_rates() -> Seq<u32> {
    seq![44_100u32, 48_000u32, 88_200u32, 96_000u32]
}

/// Largest packet of a 16-bit stream at 96 kHz (97 frames).
pub const MAX_PACKET_SIZE_16: usize = 388;
/// Largest packet of a 24-bit stream at 96 kHz (97 frames).
pub const MAX_PACKET_SIZE_24: usize = 582;
/// Largest packet of a 32-bit stream at 48 kHz (49 frames).
pub const MAX_PACKET_SIZE_32: usize = 392;
/// Largest packet of any stream.
pub const MAX_PACKET_SIZE: usize = 582;
pub const PIPE_SIZE: usize = 9312;
pub const PACKET_LEN_QUEUE_SIZE: usize = 64;

#[derive(Clone, Copy, Debug, PartialEq, Eq, Structural)]
pub enum StreamDirection {
    Out,
    In,
}

#[derive(Clone, Copy, Debug, PartialEq, Eq, Structural)]
pub enum AudioStreamingAlternateSetting {
    Inactive,
    Pcm16,
    Pcm24,
    Pcm32,
}

impl Default for AudioStreamingAlternateSetting {
    fn default() -> (r: Self)
        ensures
            r == AudioStreamingAlternateSetting::Inactive,
    {
        AudioStreamingAlternateSetting::Inactive
    }
}

/// The interface alternate-setting number of each setting.
pub open spec fn alt_number(alt: AudioStreamingAlternateSetting) -> u8 {
    match alt {
        AudioStreamingAlternateSetting::Inactive => 0,
        AudioStreamingAlternateSetting::Pcm16 => 1,
        AudioStreamingAlternateSetting::Pcm24 => 2,
        AudioStreamingAlternateSetting::Pcm32 => 3,
    }
}

/// Bytes of one stereo audio frame; zero for the zero-bandwidth setting.
pub open spec fn alt_frame_bytes(alt: AudioStreamingAlternateSetting) -> nat {
    match alt {
        AudioStreamingAlternateSetting::Inactive => 0,
        AudioStreamingAlternateSetting::Pcm16 => 4,
        AudioStreamingAlternateSetting::Pcm24 => 6,
        AudioStreamingAlternateSetting::Pcm32 => 8,
    }
}

/// The 32-bit setting is limited to 44.1 and 48 kHz; every other setting
/// accepts every advertised rate.
pub open spec fn alt_supports(alt: AudioStreamingAlternateSetting, rate: SampleRate) -> bool {
    match alt {
        AudioStreamingAlternateSetting::Pcm32 => rate == SampleRate::R44100 || rate
            == SampleRate::R48000,
        _ => true,
    }
}

pub open spec fn alt_rate_or_default(
    alt: AudioStreamingAlternateSetting,
    rate: SampleRate,
) -> SampleRate {
    if alt_supports(alt, rate) {
        rate
    } else {
        SampleRate::R48000
    }
}

impl AudioStreamingAlternateSetting {
    pub fn from_number(number: u8) -> (r: Option<Self>)
        ensures
            number <= 3 ==> (r matches Some(alt) && alt_number(alt) == number),
            number == 0 ==> r == Some(AudioStreamingAlternateSetting::Inactive),
            number == 1 ==> r == Some(AudioStreamingAlternateSetting::Pcm16),
            number == 2 ==> r == Some(AudioStreamingAlternateSetting::Pcm24),
            number == 3 ==> r == Some(AudioStreamingAlternateSetting::Pcm32),
            number > 3 ==> r is None,
    {
        match number {
            0 => Some(AudioStreamingAlternateSetting::Inactive),
            1 => Some(AudioStreamingAlternateSetting::Pcm16),
            2 => Some(AudioStreamingAlternateSetting::Pcm24),
            3 => Some(AudioStreamingAlternateSetting::Pcm32),
            _ => None,
        }
    }

    pub fn number(self) -> (n: u8)
        ensures
            n == alt_number(self),
    {
        match self {
            AudioStreamingAlternateSetting::Inactive => 0,
            AudioStreamingAlternateSetting::Pcm16 => 1,
            AudioStreamingAlternateSetting::Pcm24 => 2,
            AudioStreamingAlternateSetting::Pcm32 => 3,
        }
    }

    pub fn bytes_per_audio_frame(self) -> (n: usize)
        ensures
            n == alt_frame_bytes(self),
    {
        match self {
            AudioStreamingAlternateSetting::Inactive => 0,
            AudioStreamingAlternateSetting::Pcm16 => CHANNEL_COUNT as usize * 2,
            AudioStreamingAlternateSetting::Pcm24 => CHANNEL_COUNT as usize * 3,
            AudioStreamingAlternateSetting::Pcm32 => CHANNEL_COUNT as usize * 4,
        }
    }

    pub fn supports_sample_rate(self, rate: SampleRate) -> (b: bool)
        ensures
            b == alt_supports(self, rate),
    {
        match self {
            AudioStreamingAlternateSetting::Pcm32 => matches!(rate, SampleRate::R44100 | SampleRate::R48000),
            _ => true,
        }
    }

    pub fn sample_rate_or_default(self, rate: SampleRate) -> (r: SampleRate)
        ensures
            r == alt_rate_or_default(self, rate),
    {
        if self.supports_sample_rate(rate) {
            rate
        } else {
            DEFAULT_SAMPLE_RATE
        }
    }

    /// Reads the setting from the low nibble of a packed code; an unknown
    /// nibble reads as the zero-bandwidth setting.
    fn from_code(code: u8) -> (r: Self)
        ensures
            r == alt_from_code(code),
    {
        match code & 0x0f {
            0 => AudioStreamingAlternateSetting::Inactive,
            1 => AudioStreamingAlternateSetting::Pcm16,
            2 => AudioStreamingAlternateSetting::Pcm24,
            3 => AudioStreamingAlternateSetting::Pcm32,
            _ => AudioStreamingAlternateSetting::Inactive,
        }
    }
}

pub open spec fn alt_from_code(code: u8) -> AudioStreamingAlternateSetting {
    let n = code & 0x0f;
    if n == 1 {
        AudioStreamingAlternateSetting::Pcm16
    } else if n == 2 {
        AudioStreamingAlternateSetting::Pcm24
    } else if n == 3 {
        AudioStreamingAlternateSetting::Pcm32
    } else {
        AudioStreamingAlternateSetting::Inactive
    }
}

#[derive(Clone, Copy, Debug, PartialEq, Eq, Structural)]
pub enum SampleRate {
    R44100,
    R48000,
    R88200,
    R96000,
}

/// The rate a stream starts at, and falls back to.
pub const DEFAULT_SAMPLE_RATE: SampleRate = SampleRate::R48000;

impl Default for SampleRate {
    fn default() -> (r: Self)
        ensures
            r == SampleRate::R48000,
    {
        SampleRate::R48000
    }
}

pub open spec fn rate_hz(rate: SampleRate) -> u32 {
    match rate {
        SampleRate::R44100 => 44_100,
        SampleRate::R48000 => 48_000,
        SampleRate::R88200 => 88_200,
        SampleRate::R96000 => 96_000,
    }
}

pub open spec fn rate_code(rate: SampleRate) -> u8 {
    match rate {
        SampleRate::R44100 => 0,
        SampleRate::R48000 => 1,
        SampleRate::R88200 => 2,
        SampleRate::R96000 => 3,
    }
}

pub open spec fn rate_from_code(code: u8) -> SampleRate {
    let n = code & 0x0f;
    if n == 0 {
        SampleRate::R44100
    } else if n == 2 {
        SampleRate::R88200
    } else if n == 3 {
        SampleRate::R96000
    } else {
        SampleRate::R48000
    }
}

impl SampleRate {
    pub fn hz(self) -> (hz: u32)
        ensures
            hz == rate_hz(self),
    {
        match self {
            SampleRate::R44100 => 44_100,
            SampleRate::R48000 => 48_000,
            SampleRate::R88200 => 88_200,
            SampleRate::R96000 => 96_000,
        }
    }

    /// Accepts exactly the four advertised rates.
    pub fn from_hz(rate_hz_value: u32) -> (r: Option<Self>)
        ensures
            r matches Some(rate) ==> rate_hz(rate) == rate_hz_value,
            r is None <==> !supported_sample_rates().contains(rate_hz_value),
    {
        proof {
            assert(supported_sample_rates()[0] == 44_100u32);
            assert(supported_sample_rates()[1] == 48_000u32);
            assert(supported_sample_rates()[2] == 88_200u32);
            assert(supported_sample_rates()[3] == 96_000u32);
        }
        match rate_hz_value {
            44_100 => Some(SampleRate::R44100),
            48_000 => Some(SampleRate::R48000),
            88_200 => Some(SampleRate::R88200),
            96_000 => Some(SampleRate::R96000),
            _ => None,
        }
    }

    fn code(self) -> (c: u8)
        ensures
            c == rate_code(self),
    {
        match self {
            SampleRate::R44100 => 0,
            SampleRate::R48000 => 1,
            SampleRate::R88200 => 2,
            SampleRate::R96000 => 3,
        }
    }

    /// Reads the rate from the low nibble of a packed code; an unknown
    /// nibble reads as the default rate.
    fn from_code(code: u8) -> (r: Self)
        ensures
            r == rate_from_code(code),
    {
        match code & 0x0f {
            0 => SampleRate::R44100,
            1 => SampleRate::R48000,
            2 => SampleRate::R88200,
            3 => SampleRate::R96000,
            _ => DEFAULT_SAMPLE_RATE,
        }
    }
}

#[derive(Clone, Copy, Debug, PartialEq, Eq, Structural)]
pub struct StreamFormat {
    pub alternate_setting: AudioStreamingAlternateSetting,
    pub rate: SampleRate,
}

/// Zero-bandwidth at the default rate: the format of a stream that was
/// never configured.
pub open spec fn default_stream_format() -> StreamFormat {
    StreamFormat { alternate_setting: AudioStreamingAlternateSetting::Inactive, rate: SampleRate::R48000 }
}

pub open spec fn default_audio_formats() -> AudioFormats {
    AudioFormats { out: default_stream_format(), in_: default_stream_format() }
}

impl Default for StreamFormat {
    fn default() -> (r: Self)
        ensures
            r == default_stream_format(),
    {
        StreamFormat::new(AudioStreamingAlternateSetting::Inactive, SampleRate::R48000)
    }
}

pub open spec fn stream_code(f: StreamFormat) -> u32 {
    ((rate_code(f.rate) as u32) << 4u32) | ((alt_number(f.alternate_setting) as u32) & 0x0fu32)
}

pub open spec fn stream_from_code(bits: u8) -> StreamFormat {
    StreamFormat { alternate_setting: alt_from_code(bits), rate: rate_from_code(bits >> 4u8) }
}

impl StreamFormat {
    pub fn new(alternate_setting: AudioStreamingAlternateSetting, rate: SampleRate) -> (r: Self)
        ensures
            r.alternate_setting == alternate_setting,
            r.rate == rate,
    {
        StreamFormat { alternate_setting, rate }
    }

    pub fn bytes_per_audio_frame(self) -> (n: usize)
        ensures
            n == alt_frame_bytes(self.alternate_setting),
    {
        self.alternate_setting.bytes_per_audio_frame()
    }

    fn encode(self) -> (bits: u32)
        ensures
            bits == stream_code(self),
            bits < 64,
    {
        let r = self.rate.code() as u32;
        let a = self.alternate_setting.number() as u32;
        proof {
            lemma_stream_code_small(r, a);
        }
        (r << 4) | (a & 0x0f)
    }

    fn decode(bits: u8) -> (r: Self)
        ensures
            r == stream_from_code(bits),
    {
        StreamFormat::new(
            AudioStreamingAlternateSetting::from_code(bits),
            SampleRate::from_code(bits >> 4),
        )
    }
}

#[derive(Clone, Copy, Debug, PartialEq, Eq, Structural)]
pub struct AudioFormats {
    pub out: StreamFormat,
    pub in_: StreamFormat,
}

impl Default for AudioFormats {
    fn default() -> (r: Self)
        ensures
            r == default_audio_formats(),
    {
        AudioFormats::new(StreamFormat::default(), StreamFormat::default())
    }
}

/// Loopback is possible only when both directions use the same active
/// alternate setting at the same rate.
pub open spec fn formats_match(f: AudioFormats) -> bool {
    &&& f.out.alternate_setting != AudioStreamingAlternateSetting::Inactive
    &&& f.out.alternate_setting == f.in_.alternate_setting
    &&& f.out.rate == f.in_.rate
}

pub open spec fn formats_code(f: AudioFormats) -> u32 {
    stream_code(f.out) | (stream_code(f.in_) << 8u32)
}

pub open spec fn formats_from_code(bits: u32) -> AudioFormats {
    AudioFormats {
        out: stream_from_code(bits as u8),
        in_: stream_from_code((bits >> 8u32) as u8),
    }
}

impl AudioFormats {
    pub fn new(out: StreamFormat, in_: StreamFormat) -> (r: Self)
        ensures
            r.out == out,
            r.in_ == in_,
    {
        AudioFormats { out, in_ }
    }

    pub fn loopback_format_matches(self) -> (b: bool)
        ensures
            b == formats_match(self),
    {
        self.out.alternate_setting != AudioStreamingAlternateSetting::Inactive
            && self.out.alternate_setting == self.in_.alternate_setting
            && self.out.rate == self.in_.rate
    }

    fn encode(self) -> (bits: u32)
        ensures
            bits == formats_code(self),
    {
        let o = self.out.encode();
        let i = self.in_.encode();
        proof {
            lemma_formats_code_no_overflow(o, i);
        }
        o | (i << 8)
    }

    fn decode(bits: u32) -> (r: Self)
        ensures
            r == formats_from_code(bits),
    {
        AudioFormats::new(StreamFormat::decode(bits as u8), StreamFormat::decode((bits >> 8) as u8))
    }
}

proof fn lemma_stream_code_small(r: u32, a: u32)
    requires
        r < 4,
        a < 4,
    ensures
        (r << 4u32) | (a & 0x0fu32) < 64,
        ((r << 4u32) | (a & 0x0fu32)) & 0x0fu32 == a,
        ((r << 4u32) | (a & 0x0fu32)) >> 4u32 == r,
{
    assert((r << 4u32) | (a & 0x0fu32) < 64) by (bit_vector)
        requires
            r < 4,
            a < 4,
    ;
    assert(((r << 4u32) | (a & 0x0fu32)) & 0x0fu32 == a) by (bit_vector)
        requires
            r < 4,
            a < 4,
    ;
    assert(((r << 4u32) | (a & 0x0fu32)) >> 4u32 == r) by (bit_vector)
        requires
            r < 4,
            a < 4,
    ;
}

proof fn lemma_formats_code_no_overflow(o: u32, i: u32)
    requires
        o < 64,
        i < 64,
    ensures
        (o | (i << 8u32)) as u8 == o as u8,
        ((o | (i << 8u32)) >> 8u32) as u8 == i as u8,
        o as u8 == o,
        i as u8 == i,
{
    assert((o | (i << 8u32)) as u8 == o as u8) by (bit_vector)
        requires
            o < 64,
            i < 64,
    ;
    assert(((o | (i << 8u32)) >> 8u32) as u8 == i as u8) by (bit_vector)
        requires
            o < 64,
            i < 64,
    ;
}

/// Reading a packed stream code gives back the format that was packed.
pub proof fn lemma_stream_code_roundtrip(f: StreamFormat)
    ensures
        stream_code(f) < 64,
        stream_from_code(stream_code(f) as u8) == f,
{
    let r = rate_code(f.rate) as u32;
    let a = alt_number(f.alternate_setting) as u32;
    lemma_stream_code_small(r, a);
    let c = stream_code(f);
    let b = c as u8;
    assert(b == c);
    assert((b & 0x0fu8) as u32 == c & 0x0fu32) by (bit_vector)
        requires
            b == c,
            c < 64,
    ;
    assert((b >> 4u8) & 0x0fu8 == (c >> 4u32) as u8) by (bit_vector)
        requires
            b == c,
            c < 64,
    ;
}

/// Packing both directions into the format register and reading it back
/// gives the same pair of formats: the register loses nothing.
pub proof fn lemma_formats_code_roundtrip(f: AudioFormats)
    ensures
        formats_from_code(formats_code(f)) == f,
{
    lemma_stream_code_roundtrip(f.out);
    lemma_stream_code_roundtrip(f.in_);
    lemma_formats_code_no_overflow(stream_code(f.out), stream_code(f.in_));
}


/// Register holding the formats of both directions, packed as the
/// firmware's single 32-bit format word.
pub struct AudioState {
    formats: u32,
}

#[derive(Clone, Copy)]
enum StreamFormatUpdate {
    AlternateSetting(AudioStreamingAlternateSetting),
    Rate(SampleRate),
}

/// Abstract form of a format update: a new alternate setting, or a new rate.
pub enum FormatChange {
    AlternateSetting(AudioStreamingAlternateSetting),
    Rate(SampleRate),
}

spec fn update_view(u: StreamFormatUpdate) -> FormatChange {
    match u {
        StreamFormatUpdate::AlternateSetting(a) => FormatChange::AlternateSetting(a),
        StreamFormatUpdate::Rate(r) => FormatChange::Rate(r),
    }
}

pub open spec fn direction_format(f: AudioFormats, direction: StreamDirection) -> StreamFormat {
    match direction {
        StreamDirection::Out => f.out,
        StreamDirection::In => f.in_,
    }
}

pub open spec fn with_direction_format(
    f: AudioFormats,
    direction: StreamDirection,
    s: StreamFormat,
) -> AudioFormats {
    match direction {
        StreamDirection::Out => AudioFormats { out: s, ..f },
        StreamDirection::In => AudioFormats { in_: s, ..f },
    }
}

/// The format a direction takes after an update, or `None` when the update
/// is a rate that the direction's current alternate setting does not carry.
/// A new alternate setting keeps the current rate where the setting supports
/// it and otherwise falls back to the default rate.
pub open spec fn next_stream_format(current: StreamFormat, change: FormatChange) -> Option<StreamFormat> {
    match change {
        FormatChange::AlternateSetting(alt) => Some(
            StreamFormat { alternate_setting: alt, rate: alt_rate_or_default(alt, current.rate) },
        ),
        FormatChange::Rate(rate) => if alt_supports(current.alternate_setting, rate) {
            Some(StreamFormat { alternate_setting: current.alternate_setting, rate })
        } else {
            None
        },
    }
}

pub open spec fn apply_format_change(
    f: AudioFormats,
    direction: StreamDirection,
    change: FormatChange,
) -> Option<(AudioFormats, StreamFormat)> {
    match next_stream_format(direction_format(f, direction), change) {
        Some(s) => Some((with_direction_format(f, direction, s), s)),
        None => None,
    }
}

/// Each direction's rate is one its alternate setting carries.
pub open spec fn formats_consistent(f: AudioFormats) -> bool {
    alt_supports(f.out.alternate_setting, f.out.rate) && alt_supports(f.in_.alternate_setting, f.in_.rate)
}

impl View for AudioState {
    type V = AudioFormats;

    closed spec fn view(&self) -> AudioFormats {
        formats_from_code(self.formats)
    }
}

impl AudioState {
    #[verifier::type_invariant]
    spec fn holds_consistent_formats(self) -> bool {
        formats_consistent(formats_from_code(self.formats))
    }

    pub fn new() -> (s: Self)
        ensures
            s@ == default_audio_formats(),
    {
        let bits = AudioFormats::new(
            StreamFormat::new(AudioStreamingAlternateSetting::Inactive, DEFAULT_SAMPLE_RATE),
            StreamFormat::new(AudioStreamingAlternateSetting::Inactive, DEFAULT_SAMPLE_RATE),
        ).encode();
        proof {
            lemma_formats_code_roundtrip(default_audio_formats());
        }
        AudioState { formats: bits }
    }

    /// Returns both directions to the zero-bandwidth setting at the default rate.
    pub fn reset(&mut self)
        ensures
            final(self)@ == default_audio_formats(),
    {
        let bits = AudioFormats::default().encode();
        proof {
            lemma_formats_code_roundtrip(default_audio_formats());
        }
        self.formats = bits;
    }

    /// Selects an alternate setting for one direction. This always succeeds;
    /// the direction keeps its rate where the new setting carries it.
    pub fn set_alternate_setting(
        &mut self,
        direction: StreamDirection,
        alternate_setting: AudioStreamingAlternateSetting,
    ) -> (stored: StreamFormat)
        ensures
            apply_format_change(old(self)@, direction, FormatChange::AlternateSetting(alternate_setting))
                == Some((final(self)@, stored)),
    {
        match self.update_format(direction, StreamFormatUpdate::AlternateSetting(alternate_setting)) {
            Some(format) => format,
            None => {
                proof {
                    assert(false);
                }
                StreamFormat::new(alternate_setting, DEFAULT_SAMPLE_RATE)
            },
        }
    }

    /// Changes one direction's rate. A rate that the direction's alternate
    /// setting does not carry is refused and leaves the register unchanged.
    pub fn set_rate(&mut self, direction: StreamDirection, rate: SampleRate) -> (r: Option<StreamFormat>)
        ensures
            match apply_format_change(old(self)@, direction, FormatChange::Rate(rate)) {
                Some((next, stored)) => r == Some(stored) && final(self)@ == next,
                None => r is None && final(self)@ == old(self)@,
            },
    {
        self.update_format(direction, StreamFormatUpdate::Rate(rate))
    }

    pub fn formats(&self) -> (f: AudioFormats)
        ensures
            f == self@,
            formats_consistent(f),
    {
        proof {
            use_type_invariant(self);
        }
        AudioFormats::decode(self.formats)
    }

    fn update_format(&mut self, direction: StreamDirection, update: StreamFormatUpdate) -> (r: Option<StreamFormat>)
        ensures
            match apply_format_change(old(self)@, direction, update_view(update)) {
                Some((next, stored)) => r == Some(stored) && final(self)@ == next,
                None => r is None && final(self)@ == old(self)@,
            },
    {
        proof {
            use_type_invariant(&*self);
        }
        let previous_bits = self.formats;
        match apply_stream_format_update(AudioFormats::decode(previous_bits), direction, update) {
            Some((formats, _)) => {
                let bits = formats.encode();
                proof {
                    lemma_formats_code_roundtrip(formats);
                }
                self.formats = bits;
            },
            None => {
                return None;
            },
        }
        match apply_stream_format_update(AudioFormats::decode(previous_bits), direction, update) {
            Some((_, stored_format)) => Some(stored_format),
            None => None,
        }
    }
}

impl Default for AudioState {
    fn default() -> (s: Self)
        ensures
            s@ == default_audio_formats(),
    {
        AudioState::new()
    }
}

fn apply_stream_format_update(
    formats: AudioFormats,
    direction: StreamDirection,
    update: StreamFormatUpdate,
) -> (r: Option<(AudioFormats, StreamFormat)>)
    ensures
        r == apply_format_change(formats, direction, update_view(update)),
{
    let mut formats = formats;
    let current = match direction {
        StreamDirection::Out => formats.out,
        StreamDirection::In => formats.in_,
    };
    let next_format = match update {
        StreamFormatUpdate::AlternateSetting(alternate_setting) => StreamFormat::new(
            alternate_setting,
            alternate_setting.sample_rate_or_default(current.rate),
        ),
        StreamFormatUpdate::Rate(rate) => {
            if !current.alternate_setting.supports_sample_rate(rate) {
                return None;
            }
            StreamFormat::new(current.alternate_setting, rate)
        },
    };
    match direction {
        StreamDirection::Out => formats.out = next_format,
        StreamDirection::In => formats.in_ = next_format,
    }
    Some((formats, next_format))
}

/// Sizes generated silence packets: it accumulates the nominal rate once per
/// millisecond and emits the whole frames accumulated so far, which gives the
/// fractional cadence of rates such as 44.1 kHz.
pub struct PacketClock {
    rate_hz: u32,
    bytes_per_audio_frame: usize,
    accumulator: u32,
}

/// Frames emitted by one clock step from accumulator `acc` at `rate` Hz.
pub open spec fn cadence_step_frames(acc: int, rate: int) -> int {
    (acc + rate) / 1000
}

/// Accumulator left by one clock step.
pub open spec fn cadence_step_acc(acc: int, rate: int) -> int {
    (acc + rate) % 1000
}

/// Frames emitted over `k` consecutive steps at a fixed rate.
pub open spec fn cadence_frames(acc: int, rate: int, k: nat) -> int
    decreases k,
{
    if k == 0 {
        0
    } else {
        cadence_frames(acc, rate, (k - 1) as nat) + cadence_step_frames(
            cadence_acc(acc, rate, (k - 1) as nat),
            rate,
        )
    }
}

/// Accumulator after `k` consecutive steps at a fixed rate.
pub open spec fn cadence_acc(acc: int, rate: int, k: nat) -> int
    decreases k,
{
    if k == 0 {
        acc
    } else {
        cadence_step_acc(cadence_acc(acc, rate, (k - 1) as nat), rate)
    }
}

/// Over any run of steps at one rate the clock loses no time: after `k`
/// steps it has emitted exactly the whole frames of `k` milliseconds (plus
/// the starting remainder), and keeps the fraction as its accumulator.
pub proof fn lemma_packet_clock_cadence(acc: int, rate: int, k: nat)
    requires
        0 <= acc < 1000,
        0 <= rate,
    ensures
        cadence_frames(acc, rate, k) == (acc + k * rate) / 1000,
        cadence_acc(acc, rate, k) == (acc + k * rate) % 1000,
    decreases k,
{
    if k > 0 {
        let k1 = (k - 1) as nat;
        lemma_packet_clock_cadence(acc, rate, k1);
        let t = acc + k1 * rate;
        let q = t / 1000;
        let m = t % 1000;
        assert(t == 1000 * q + m && 0 <= m < 1000) by (nonlinear_arith)
            requires
                t >= 0,
                q == t / 1000,
                m == t % 1000,
        ;
        assert(acc + k * rate == t + rate) by (nonlinear_arith)
            requires
                t == acc + k1 * rate,
                k == k1 + 1,
        ;
        let s = m + rate;
        assert((t + rate) / 1000 == q + s / 1000 && (t + rate) % 1000 == s % 1000) by (nonlinear_arith)
            requires
                t == 1000 * q + m,
                s == m + rate,
                s >= 0,
        ;
    }
}

impl PacketClock {
    /// The carried fraction is always less than one millisecond's worth.
    #[verifier::type_invariant]
    pub(crate) open spec fn accumulator_below_one_millisecond(self) -> bool {
        self.spec_accumulator() < 1000
    }

    pub closed spec fn spec_rate_hz(self) -> u32 {
        self.rate_hz
    }

    pub closed spec fn spec_bytes_per_audio_frame(self) -> usize {
        self.bytes_per_audio_frame
    }

    pub closed spec fn spec_accumulator(self) -> u32 {
        self.accumulator
    }

    /// The accumulator a step at (`rate_hz`, `bytes`) starts from: the stored
    /// one while the format is unchanged, zero after a format change.
    pub open spec fn start_accumulator(self, rate_hz: u32, bytes: usize) -> int {
        if self.spec_rate_hz() == rate_hz && self.spec_bytes_per_audio_frame() == bytes {
            self.spec_accumulator() as int
        } else {
            0
        }
    }

    pub fn new() -> (c: Self)
        ensures
            c.spec_rate_hz() == 0,
            c.spec_bytes_per_audio_frame() == 0,
            c.spec_accumulator() == 0,
    {
        PacketClock { rate_hz: 0, bytes_per_audio_frame: 0, accumulator: 0 }
    }

    /// Length in bytes of the next silence packet for a stream at `rate_hz`
    /// with `bytes_per_audio_frame`-byte frames. A change of either value
    /// restarts the fractional accumulator.
    pub fn next_len(&mut self, rate_hz: u32, bytes_per_audio_frame: usize) -> (len: usize)
        requires
            old(self).start_accumulator(rate_hz, bytes_per_audio_frame) + rate_hz <= u32::MAX,
            cadence_step_frames(old(self).start_accumulator(rate_hz, bytes_per_audio_frame), rate_hz as int)
                * bytes_per_audio_frame <= usize::MAX,
        ensures
            len == cadence_step_frames(old(self).start_accumulator(rate_hz, bytes_per_audio_frame), rate_hz as int)
                * bytes_per_audio_frame,
            final(self).spec_accumulator() == cadence_step_acc(
                old(self).start_accumulator(rate_hz, bytes_per_audio_frame),
                rate_hz as int,
            ),
            final(self).spec_rate_hz() == rate_hz,
            final(self).spec_bytes_per_audio_frame() == bytes_per_audio_frame,
            final(self).spec_accumulator() < 1000,
    {
        proof {
            use_type_invariant(&*self);
        }
        let start: u32 = if self.rate_hz != rate_hz || self.bytes_per_audio_frame != bytes_per_audio_frame {
            0
        } else {
            self.accumulator
        };
        let total: u32 = start + rate_hz;
        let audio_frames: u32 = total / 1_000;
        let remainder: u32 = total % 1_000;
        self.rate_hz = rate_hz;
        self.bytes_per_audio_frame = bytes_per_audio_frame;
        self.accumulator = remainder;
        audio_frames as usize * bytes_per_audio_frame
    }
}

impl Default for PacketClock {
    fn default() -> (c: Self)
        ensures
            c.spec_rate_hz() == 0,
            c.spec_bytes_per_audio_frame() == 0,
            c.spec_accumulator() == 0,
    {
        PacketClock::new()
    }
}

} // verus!
