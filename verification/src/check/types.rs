//! Formats and records of the loopback checker.

use vstd::prelude::*;

verus! {

pub const CHANNELS: usize = 2;
pub const CHANNEL_MASK_STEREO: u32 = 0x3;
pub const DEFAULT_BUFFER_PERIODS: u32 = 4;

#[derive(Clone, Copy, Debug, PartialEq, Eq, Structural)]
pub enum StreamTiming {
    Polling,
    Events,
}

impl Default for StreamTiming {
    fn default() -> (r: Self)
        ensures
            r == StreamTiming::Polling,
    {
        StreamTiming::Polling
    }
}

#[derive(Clone, Copy, Debug, PartialEq, Eq, Structural)]
pub enum CaptureMode {
    Exclusive,
    Shared,
}

impl Default for CaptureMode {
    fn default() -> (r: Self)
        ensures
            r == CaptureMode::Exclusive,
    {
        CaptureMode::Exclusive
    }
}

#[derive(Clone, Copy, Debug, PartialEq, Eq, Structural)]
pub enum SharedFormatMode {
    Leave,
    SetRestore,
    SetKeep,
}

/// Why a requested test format was refused.
#[derive(Clone, Copy, Debug, PartialEq, Eq, Structural)]
pub enum ConfigError {
    UnsupportedRate,
    UnsupportedBits,
    Unsupported32BitRate,
}

impl ConfigError {
    pub fn message(&self) -> (m: &'static str)
        ensures
            *self == ConfigError::UnsupportedRate ==> m@ == "rate must be one of 44100, 48000, 88200, 96000"@,
            *self == ConfigError::UnsupportedBits ==> m@ == "bits must be 16, 24, or 32"@,
            *self == ConfigError::Unsupported32BitRate ==> m@ == "32-bit checks are limited to 44100 or 48000"@,
    {
        match self {
            ConfigError::UnsupportedRate => "rate must be one of 44100, 48000, 88200, 96000",
            ConfigError::UnsupportedBits => "bits must be 16, 24, or 32",
            ConfigError::Unsupported32BitRate => "32-bit checks are limited to 44100 or 48000",
        }
    }
}

#[derive(Clone, Copy, Debug, PartialEq, Eq, Structural)]
pub enum SampleRate {
    R44100,
    R48000,
    R88200,
    R96000,
}

impl Default for SampleRate {
    fn default() -> (r: Self)
        ensures
            r == SampleRate::R48000,
    {
        SampleRate::R48000
    }
}

pub open spec fn hz_of(rate: SampleRate) -> u32 {
    match rate {
        SampleRate::R44100 => 44_100,
        SampleRate::R48000 => 48_000,
        SampleRate::R88200 => 88_200,
        SampleRate::R96000 => 96_000,
    }
}

/// Frames in `millis` milliseconds, rounded up.
pub open spec fn frames_in_ms(hz: int, millis: int) -> int {
    (hz * millis + 999) / 1000
}

impl SampleRate {
    pub fn hz(self) -> (hz: u32)
        ensures
            hz == hz_of(self),
    {
        match self {
            SampleRate::R44100 => 44_100,
            SampleRate::R48000 => 48_000,
            SampleRate::R88200 => 88_200,
            SampleRate::R96000 => 96_000,
        }
    }

    pub fn from_hz(rate: u32) -> (r: Result<Self, ConfigError>)
        ensures
            r matches Ok(s) ==> hz_of(s) == rate,
            r is Err <==> !(rate == 44_100 || rate == 48_000 || rate == 88_200 || rate == 96_000),
            r matches Err(e) ==> e == ConfigError::UnsupportedRate,
    {
        match rate {
            44_100 => Ok(SampleRate::R44100),
            48_000 => Ok(SampleRate::R48000),
            88_200 => Ok(SampleRate::R88200),
            96_000 => Ok(SampleRate::R96000),
            _ => Err(ConfigError::UnsupportedRate),
        }
    }

    /// The order in which the full matrix visits rates: fastest first.
    pub fn matrix_order() -> (r: [Self; 4])
        ensures
            r@ == seq![SampleRate::R96000, SampleRate::R88200, SampleRate::R48000, SampleRate::R44100],
    {
        let r = [SampleRate::R96000, SampleRate::R88200, SampleRate::R48000, SampleRate::R44100];
        assert(r@ =~= seq![SampleRate::R96000, SampleRate::R88200, SampleRate::R48000, SampleRate::R44100]);
        r
    }

    /// Frames needed to cover `millis` milliseconds at this rate.
    pub fn frames_from_ms(self, millis: u64) -> (n: usize)
        requires
            hz_of(self) * millis <= u64::MAX,
        ensures
            n == frames_in_ms(hz_of(self) as int, millis as int) as usize,
    {
        let total: u64 = self.hz() as u64 * millis;
        let whole: u64 = total / 1000;
        let ceil: u64 = if total % 1000 == 0 { whole } else { whole + 1 };
        ceil as usize
    }
}

#[derive(Clone, Copy, Debug, PartialEq, Eq, Structural)]
pub enum SampleWidth {
    Bits16,
    Bits24,
    Bits32,
}

impl Default for SampleWidth {
    fn default() -> (r: Self)
        ensures
            r == SampleWidth::Bits16,
    {
        SampleWidth::Bits16
    }
}

pub open spec fn bits_of(w: SampleWidth) -> u16 {
    match w {
        SampleWidth::Bits16 => 16,
        SampleWidth::Bits24 => 24,
        SampleWidth::Bits32 => 32,
    }
}

pub open spec fn sample_bytes(w: SampleWidth) -> usize {
    match w {
        SampleWidth::Bits16 => 2,
        SampleWidth::Bits24 => 3,
        SampleWidth::Bits32 => 4,
    }
}

/// The firmware carries 32-bit PCM only at 44.1 and 48 kHz.
pub open spec fn width_supports(w: SampleWidth, rate: SampleRate) -> bool {
    match w {
        SampleWidth::Bits32 => rate == SampleRate::R44100 || rate == SampleRate::R48000,
        _ => true,
    }
}

impl SampleWidth {
    pub fn bits(self) -> (b: u16)
        ensures
            b == bits_of(self),
    {
        match self {
            SampleWidth::Bits16 => 16,
            SampleWidth::Bits24 => 24,
            SampleWidth::Bits32 => 32,
        }
    }

    pub fn bytes_per_sample(self) -> (n: usize)
        ensures
            n == sample_bytes(self),
    {
        match self {
            SampleWidth::Bits16 => 2,
            SampleWidth::Bits24 => 3,
            SampleWidth::Bits32 => 4,
        }
    }

    pub fn supports_sample_rate(self, rate: SampleRate) -> (b: bool)
        ensures
            b == width_supports(self, rate),
    {
        match self {
            SampleWidth::Bits16 | SampleWidth::Bits24 => true,
            SampleWidth::Bits32 => matches!(rate, SampleRate::R44100 | SampleRate::R48000),
        }
    }

    pub fn from_bits(bits: u16) -> (r: Result<Self, ConfigError>)
        ensures
            r matches Ok(w) ==> bits_of(w) == bits,
            r is Err <==> !(bits == 16 || bits == 24 || bits == 32),
            r matches Err(e) ==> e == ConfigError::UnsupportedBits,
    {
        match bits {
            16 => Ok(SampleWidth::Bits16),
            24 => Ok(SampleWidth::Bits24),
            32 => Ok(SampleWidth::Bits32),
            _ => Err(ConfigError::UnsupportedBits),
        }
    }

    /// The order in which the full matrix visits widths: widest first.
    pub fn matrix_order() -> (r: [Self; 3])
        ensures
            r@ == seq![SampleWidth::Bits32, SampleWidth::Bits24, SampleWidth::Bits16],
    {
        let r = [SampleWidth::Bits32, SampleWidth::Bits24, SampleWidth::Bits16];
        assert(r@ =~= seq![SampleWidth::Bits32, SampleWidth::Bits24, SampleWidth::Bits16]);
        r
    }
}

/// The format half of a test configuration's validation: a 32-bit test is
/// refused above 48 kHz.
pub fn validate_format(sample_rate: SampleRate, sample_width: SampleWidth) -> (r: Result<(), ConfigError>)
    ensures
        r is Ok <==> width_supports(sample_width, sample_rate),
        r matches Err(e) ==> e == ConfigError::Unsupported32BitRate,
{
    if !sample_width.supports_sample_rate(sample_rate) {
        return Err(ConfigError::Unsupported32BitRate);
    }
    Ok(())
}

/// Parses a raw (rate, bits) request into a supported format: the rate is
/// checked first, then the width, then the pair.
pub fn format_from_raw(rate: u32, bits: u16) -> (r: Result<(SampleRate, SampleWidth), ConfigError>)
    ensures
        !(rate == 44_100 || rate == 48_000 || rate == 88_200 || rate == 96_000) ==> r == Err::<(SampleRate, SampleWidth), ConfigError>(ConfigError::UnsupportedRate),
        (rate == 44_100 || rate == 48_000 || rate == 88_200 || rate == 96_000) && !(bits == 16 || bits == 24 || bits == 32)
            ==> r == Err::<(SampleRate, SampleWidth), ConfigError>(ConfigError::UnsupportedBits),
        r matches Ok((s, w)) ==> hz_of(s) == rate && bits_of(w) == bits && width_supports(w, s),
        (rate == 44_100 || rate == 48_000 || rate == 88_200 || rate == 96_000) && (bits == 16 || bits == 24 || bits == 32)
            ==> (r is Ok <==> !(bits == 32 && (rate == 88_200 || rate == 96_000))),
{
    let sample_rate = SampleRate::from_hz(rate)?;
    let sample_width = SampleWidth::from_bits(bits)?;
    validate_format(sample_rate, sample_width)?;
    Ok((sample_rate, sample_width))
}

/// Which endpoints to open: an exact id per direction, or else the one
/// endpoint whose names contain `query`.
#[derive(Clone, Debug)]
pub struct DeviceSelector {
    pub query: String,
    pub render_id: Option<String>,
    pub capture_id: Option<String>,
}

#[derive(Clone, Debug)]
pub struct DeviceSummary {
    pub direction: String,
    pub id: String,
    pub friendly_name: String,
    pub interface_name: String,
    pub description: String,
    pub device_format: Option<String>,
}

#[derive(Clone, Copy, Debug, PartialEq, Eq, Structural)]
pub struct StreamStats {
    pub frames: usize,
    pub discontinuities: usize,
    pub silent_buffers: usize,
    pub timestamp_errors: usize,
    pub buffer_frames: u32,
    pub period_hns: i64,
}

/// The first byte at which the captured stream differs from the expected one.
#[derive(Clone, Copy, Debug, PartialEq, Eq, Structural)]
pub struct Mismatch {
    pub byte_offset: usize,
    pub expected: u8,
    pub actual: u8,
}

/// The duration `std::time::Duration::from_nanos` makes of `nanos`.
pub uninterp spec fn nanos_duration(nanos: u64) -> core::time::Duration;

/// `std::time::Duration::from_nanos`.
#[verifier::external_body]
fn duration_from_nanos(nanos: u64) -> (d: core::time::Duration)
    ensures
        d == nanos_duration(nanos),
{
    core::time::Duration::from_nanos(nanos)
}

/// Half a device period (given in 100 ns units, at least one), in nanoseconds.
pub open spec fn polling_sleep_nanos(period_hns: i64) -> int {
    (if period_hns < 1 { 1 } else { period_hns as int }) * 100 / 2
}

/// How long a polling loop sleeps between checks: half the device period.
pub fn polling_sleep(period_hns: i64) -> (d: core::time::Duration)
    requires
        period_hns <= u64::MAX / 100,
    ensures
        d == nanos_duration(polling_sleep_nanos(period_hns) as u64),
{
    let period: i64 = if period_hns < 1 { 1 } else { period_hns };
    let nanos: u64 = (period as u64) * 100;
    duration_from_nanos(nanos / 2)
}

} // verus!
