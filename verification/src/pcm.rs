//! The one table of PCM formats and rates that every alternate setting,
//! endpoint, queue, packet size and descriptor capacity is derived from.

use vstd::prelude::*;
use crate::audio::{
    AudioStreamingAlternateSetting, SampleRate, alt_frame_bytes, alt_number, alt_supports, rate_hz,
};

verus! {

pub const USB_VENDOR_ID: u16 = 0xcafe;
pub const USB_PRODUCT_ID: u16 = 0x4001;
pub const USB_MAX_PACKET_SIZE_0: u8 = 64;
pub const USB_MAX_POWER_MA: u16 = 100;

pub const CHANNELS: u8 = 2;
/// Packets each (format, rate) queue holds before the oldest is dropped.
pub const PACKET_QUEUE_CAPACITY: usize = 8;
pub const DEFAULT_RATE: SampleRate = SampleRate::R48000;

/// Number of entries of the format table, one per nonzero alternate setting.
pub const FORMAT_COUNT: usize = 3;
/// Number of advertised (format, rate) combinations, one queue each.
pub const FORMAT_RATE_COUNT: usize = 10;
/// Largest packet any format can carry.
pub const MAX_AUDIO_PACKET_BYTES: usize = 582;
/// Largest number of rates any format advertises.
pub const MAX_RATES_PER_FORMAT: usize = 4;
/// Bytes of the longest Type I format descriptor.
pub const FORMAT_DESCRIPTOR_CAPACITY: usize = 18;
/// Bytes reserved for the whole configuration descriptor.
pub const CONFIG_DESCRIPTOR_CAPACITY: usize = 396;

#[derive(Clone, Copy, Debug, PartialEq, Eq, Structural)]
pub enum StreamDirection {
    Playback,
    Capture,
}

#[derive(Clone, Copy, Debug, PartialEq, Eq, Structural)]
pub enum SampleWidth {
    Bits16,
    Bits24,
    Bits32,
}

pub open spec fn width_bytes(w: SampleWidth) -> u8 {
    match w {
        SampleWidth::Bits16 => 2,
        SampleWidth::Bits24 => 3,
        SampleWidth::Bits32 => 4,
    }
}

pub open spec fn width_bits(w: SampleWidth) -> u8 {
    match w {
        SampleWidth::Bits16 => 16,
        SampleWidth::Bits24 => 24,
        SampleWidth::Bits32 => 32,
    }
}

impl SampleWidth {
    pub fn byte_width(self) -> (b: u8)
        ensures
            b == width_bytes(self),
    {
        match self {
            SampleWidth::Bits16 => 2,
            SampleWidth::Bits24 => 3,
            SampleWidth::Bits32 => 4,
        }
    }

    pub fn bit_resolution(self) -> (b: u8)
        ensures
            b == width_bits(self),
    {
        match self {
            SampleWidth::Bits16 => 16,
            SampleWidth::Bits24 => 24,
            SampleWidth::Bits32 => 32,
        }
    }
}

#[derive(Clone, Copy)]
pub struct PcmFormat {
    pub sample: SampleWidth,
    pub rates: &'static [SampleRate],
}

/// Width of the format in table slot `slot` (alternate setting `slot + 1`).
pub open spec fn format_width(slot: int) -> SampleWidth {
    if slot == 0 {
        SampleWidth::Bits16
    } else if slot == 1 {
        SampleWidth::Bits24
    } else {
        SampleWidth::Bits32
    }
}

/// Rates of the format in table slot `slot`: up to 96 kHz for 16 and 24
/// bits, up to 48 kHz for 32 bits.
pub open spec fn format_rates(slot: int) -> Seq<SampleRate> {
    if slot == 0 || slot == 1 {
        seq![SampleRate::R44100, SampleRate::R48000, SampleRate::R88200, SampleRate::R96000]
    } else {
        seq![SampleRate::R44100, SampleRate::R48000]
    }
}

/// The table entry in slot `slot` is this format.
pub open spec fn is_table_format(f: PcmFormat, slot: int) -> bool {
    f.sample == format_width(slot) && f.rates@ == format_rates(slot)
}

/// The format table, in alternate-setting order.
pub fn pcm_formats() -> (r: &'static [PcmFormat])
    ensures
        r@.len() == FORMAT_COUNT,
        forall|slot: int| 0 <= slot < FORMAT_COUNT ==> is_table_format(#[trigger] r@[slot], slot),
{
    let formats: &'static [PcmFormat] = &[
        PcmFormat {
            sample: SampleWidth::Bits16,
            rates: &[SampleRate::R44100, SampleRate::R48000, SampleRate::R88200, SampleRate::R96000],
        },
        PcmFormat {
            sample: SampleWidth::Bits24,
            rates: &[SampleRate::R44100, SampleRate::R48000, SampleRate::R88200, SampleRate::R96000],
        },
        PcmFormat { sample: SampleWidth::Bits32, rates: &[SampleRate::R44100, SampleRate::R48000] },
    ];
    proof {
        assert(formats@[0].rates@ =~= format_rates(0));
        assert(formats@[1].rates@ =~= format_rates(1));
        assert(formats@[2].rates@ =~= format_rates(2));
    }
    formats
}

/// The fastest rate of a nonempty rate list.
pub open spec fn is_max_rate(rates: Seq<SampleRate>, r: SampleRate) -> bool {
    &&& rates.contains(r)
    &&& forall|i: int| 0 <= i < rates.len() ==> rate_hz(#[trigger] rates[i]) <= rate_hz(r)
}

/// The slowest rate of a nonempty rate list.
pub open spec fn is_min_rate(rates: Seq<SampleRate>, r: SampleRate) -> bool {
    &&& rates.contains(r)
    &&& forall|i: int| 0 <= i < rates.len() ==> rate_hz(r) <= rate_hz(#[trigger] rates[i])
}

/// Endpoint MPS of a format: its fastest rate's frames per millisecond plus
/// one frame of headroom.
pub open spec fn packet_size_for(frame_bytes: int, max_hz: int) -> int {
    (max_hz / 1000 + 1) * frame_bytes
}

impl PcmFormat {
    pub open spec fn frame_bytes(self) -> int {
        CHANNELS * width_bytes(self.sample)
    }

    pub fn audio_frame_bytes(self) -> (n: usize)
        ensures
            n == self.frame_bytes(),
    {
        CHANNELS as usize * self.sample.byte_width() as usize
    }

    pub fn supports(self, rate: SampleRate) -> (b: bool)
        ensures
            b == self.rates@.contains(rate),
    {
        let mut index: usize = 0;
        while index < self.rates.len()
            invariant
                index <= self.rates@.len(),
                forall|j: int| 0 <= j < index ==> self.rates@[j] != rate,
            decreases self.rates@.len() - index,
        {
            if self.rates[index] == rate {
                return true;
            }
            index += 1;
        }
        false
    }

    /// The default rate where the format carries it, else its slowest rate.
    pub fn default_rate(self) -> (r: SampleRate)
        requires
            self.rates@.len() > 0,
        ensures
            self.rates@.contains(DEFAULT_RATE) ==> r == DEFAULT_RATE,
            !self.rates@.contains(DEFAULT_RATE) ==> is_min_rate(self.rates@, r),
    {
        if self.supports(DEFAULT_RATE) {
            DEFAULT_RATE
        } else {
            self.min_rate()
        }
    }

    pub fn max_rate(self) -> (r: SampleRate)
        requires
            self.rates@.len() > 0,
        ensures
            is_max_rate(self.rates@, r),
    {
        let mut maximum = self.rates[0];
        let mut index: usize = 1;
        while index < self.rates.len()
            invariant
                1 <= index <= self.rates@.len(),
                self.rates@.contains(maximum),
                forall|j: int| 0 <= j < index ==> rate_hz(#[trigger] self.rates@[j]) <= rate_hz(maximum),
            decreases self.rates@.len() - index,
        {
            let rate = self.rates[index];
            if rate.hz() > maximum.hz() {
                maximum = rate;
            }
            index += 1;
        }
        maximum
    }

    pub fn min_rate(self) -> (r: SampleRate)
        requires
            self.rates@.len() > 0,
        ensures
            is_min_rate(self.rates@, r),
    {
        let mut minimum = self.rates[0];
        let mut index: usize = 1;
        while index < self.rates.len()
            invariant
                1 <= index <= self.rates@.len(),
                self.rates@.contains(minimum),
                forall|j: int| 0 <= j < index ==> rate_hz(minimum) <= rate_hz(#[trigger] self.rates@[j]),
            decreases self.rates@.len() - index,
        {
            let rate = self.rates[index];
            if rate.hz() < minimum.hz() {
                minimum = rate;
            }
            index += 1;
        }
        minimum
    }

    /// The endpoint's wMaxPacketSize.
    pub fn max_packet_size(self) -> (n: u16)
        requires
            self.rates@.len() > 0,
        ensures
            exists|r: SampleRate|
                is_max_rate(self.rates@, r) && n == packet_size_for(self.frame_bytes(), rate_hz(r) as int),
    {
        let max = self.max_rate();
        let frames: u32 = max.hz() / 1_000 + 1;
        let frame_bytes = self.audio_frame_bytes();
        assert(frames <= 97 && frame_bytes <= 8);
        assert(frames * frame_bytes <= 776) by (nonlinear_arith)
            requires
                frames <= 97,
                frame_bytes <= 8,
        ;
        let bytes: usize = frames as usize * frame_bytes;
        bytes as u16
    }
}

/// Format of the endpoint pair in table slot `slot`.
pub fn format_by_endpoint_slot(slot: usize) -> (r: Option<&'static PcmFormat>)
    ensures
        slot < FORMAT_COUNT ==> (r matches Some(f) && is_table_format(*f, slot as int)),
        slot >= FORMAT_COUNT ==> r is None,
{
    let formats = pcm_formats();
    if slot < formats.len() {
        Some(&formats[slot])
    } else {
        None
    }
}

/// Table slot of a nonzero alternate setting; alternate 0 and numbers past
/// the table have none.
pub fn format_slot_by_alternate_setting(alternate_setting: u8) -> (r: Option<usize>)
    ensures
        (1 <= alternate_setting <= FORMAT_COUNT) ==> r == Some((alternate_setting - 1) as usize),
        !(1 <= alternate_setting <= FORMAT_COUNT) ==> r is None,
{
    if alternate_setting == 0 || alternate_setting as usize > FORMAT_COUNT {
        None
    } else {
        Some(alternate_setting as usize - 1)
    }
}

/// Number of rates advertised by the formats before table slot `slot`: the
/// index of that format's first queue.
pub open spec fn rates_before(slot: int) -> int
    decreases slot,
{
    if slot <= 0 {
        0
    } else {
        rates_before(slot - 1) + format_rates(slot - 1).len()
    }
}

/// The queue of (format `slot`, `rate`): the format's first queue plus the
/// rate's first position among the format's rates.
pub open spec fn is_queue_index(slot: int, rate: SampleRate, index: int) -> bool {
    let p = index - rates_before(slot);
    &&& 0 <= p < format_rates(slot).len()
    &&& format_rates(slot)[p] == rate
    &&& forall|j: int| 0 <= j < p ==> format_rates(slot)[j] != rate
}

/// Whether table slot `slot` advertises `rate`.
pub open spec fn is_advertised(slot: int, rate: SampleRate) -> bool {
    0 <= slot < FORMAT_COUNT && format_rates(slot).contains(rate)
}

/// Index of the packet queue of (format `format_slot`, `rate`); `None` for a
/// slot past the table or a rate the format does not advertise.
pub fn audio_queue_index(format_slot: usize, rate: SampleRate) -> (r: Option<usize>)
    ensures
        is_advertised(format_slot as int, rate) ==> (r matches Some(i) && is_queue_index(
            format_slot as int,
            rate,
            i as int,
        )),
        !is_advertised(format_slot as int, rate) ==> r is None,
{
    let format = match format_by_endpoint_slot(format_slot) {
        Some(f) => f,
        None => {
            return None;
        },
    };
    let formats = pcm_formats();
    let mut offset: usize = 0;
    let mut slot: usize = 0;
    while slot < format_slot
        invariant
            format_slot < FORMAT_COUNT,
            slot <= format_slot,
            offset == rates_before(slot as int),
            offset <= 4 * slot,
            formats@.len() == FORMAT_COUNT,
            forall|s: int| 0 <= s < FORMAT_COUNT ==> is_table_format(#[trigger] formats@[s], s),
        decreases format_slot - slot,
    {
        assert(is_table_format(formats@[slot as int], slot as int));
        offset += formats[slot].rates.len();
        slot += 1;
    }
    let mut rate_slot: usize = 0;
    while rate_slot < format.rates.len()
        invariant
            format_slot < FORMAT_COUNT,
            is_table_format(*format, format_slot as int),
            offset == rates_before(format_slot as int),
            offset <= 8,
            rate_slot <= format.rates@.len(),
            forall|j: int| 0 <= j < rate_slot ==> format.rates@[j] != rate,
        decreases format.rates@.len() - rate_slot,
    {
        if format.rates[rate_slot] == rate {
            return Some(offset + rate_slot);
        }
        rate_slot += 1;
    }
    None
}

/// The shared packet type's capacity: the largest endpoint MPS of the table.
pub fn max_audio_packet_bytes() -> (n: usize)
    ensures
        n == MAX_AUDIO_PACKET_BYTES,
{
    let formats = pcm_formats();
    let mut maximum: usize = 0;
    let mut slot: usize = 0;
    while slot < FORMAT_COUNT
        invariant
            slot <= FORMAT_COUNT,
            formats@.len() == FORMAT_COUNT,
            forall|s: int| 0 <= s < FORMAT_COUNT ==> is_table_format(#[trigger] formats@[s], s),
            maximum == (if slot == 0 { 0usize } else if slot == 1 { 388usize } else { 582usize }),
        decreases FORMAT_COUNT - slot,
    {
        assert(is_table_format(formats@[slot as int], slot as int));
        proof {
            lemma_table_packet_sizes();
        }
        let packet_size = formats[slot].max_packet_size() as usize;
        if packet_size > maximum {
            maximum = packet_size;
        }
        slot += 1;
    }
    maximum
}

/// The table's packet sizes: 388 bytes for 16-bit, 582 for 24-bit and 392
/// for 32-bit stereo.
pub proof fn lemma_table_packet_sizes()
    ensures
        forall|r: SampleRate| #[trigger] is_max_rate(format_rates(0), r) ==> packet_size_for(4, rate_hz(r) as int) == 388,
        forall|r: SampleRate| #[trigger] is_max_rate(format_rates(1), r) ==> packet_size_for(6, rate_hz(r) as int) == 582,
        forall|r: SampleRate| #[trigger] is_max_rate(format_rates(2), r) ==> packet_size_for(8, rate_hz(r) as int) == 392,
{
    assert forall|r: SampleRate| #[trigger] is_max_rate(format_rates(0), r) implies packet_size_for(4, rate_hz(r) as int) == 388 by {
        assert(rate_hz(format_rates(0)[3]) <= rate_hz(r));
    }
    assert forall|r: SampleRate| #[trigger] is_max_rate(format_rates(1), r) implies packet_size_for(6, rate_hz(r) as int) == 582 by {
        assert(rate_hz(format_rates(1)[3]) <= rate_hz(r));
    }
    assert forall|r: SampleRate| #[trigger] is_max_rate(format_rates(2), r) implies packet_size_for(8, rate_hz(r) as int) == 392 by {
        assert(rate_hz(format_rates(2)[1]) <= rate_hz(r));
        let i = choose|i: int| 0 <= i < format_rates(2).len() && format_rates(2)[i] == r;
        assert(i == 0 || i == 1);
    }
}

/// Total number of (format, rate) queues.
pub fn format_rate_count() -> (n: usize)
    ensures
        n == FORMAT_RATE_COUNT,
        n == rates_before(FORMAT_COUNT as int),
{
    let formats = pcm_formats();
    let mut total: usize = 0;
    let mut slot: usize = 0;
    while slot < FORMAT_COUNT
        invariant
            slot <= FORMAT_COUNT,
            formats@.len() == FORMAT_COUNT,
            forall|s: int| 0 <= s < FORMAT_COUNT ==> is_table_format(#[trigger] formats@[s], s),
            total == rates_before(slot as int),
            total <= 4 * slot,
        decreases FORMAT_COUNT - slot,
    {
        assert(is_table_format(formats@[slot as int], slot as int));
        total += formats[slot].rates.len();
        slot += 1;
    }
    proof {
        reveal_with_fuel(rates_before, 4);
    }
    total
}

/// Largest rate count of any format.
pub fn max_rates_per_format() -> (n: usize)
    ensures
        n == MAX_RATES_PER_FORMAT,
        forall|s: int| 0 <= s < FORMAT_COUNT ==> format_rates(s).len() <= n,
{
    let formats = pcm_formats();
    let mut maximum: usize = 0;
    let mut slot: usize = 0;
    while slot < FORMAT_COUNT
        invariant
            slot <= FORMAT_COUNT,
            formats@.len() == FORMAT_COUNT,
            forall|s: int| 0 <= s < FORMAT_COUNT ==> is_table_format(#[trigger] formats@[s], s),
            maximum == (if slot == 0 { 0usize } else { 4usize }),
            forall|s: int| 0 <= s < slot ==> format_rates(s).len() <= maximum,
        decreases FORMAT_COUNT - slot,
    {
        assert(is_table_format(formats@[slot as int], slot as int));
        let rate_count = formats[slot].rates.len();
        if rate_count > maximum {
            maximum = rate_count;
        }
        slot += 1;
    }
    maximum
}

/// Configuration descriptor bytes: the configuration, interface association,
/// AudioControl and both zero-bandwidth interfaces take 96 bytes; each
/// format adds, per direction, an interface, AS general, format, standard
/// and class-specific endpoint descriptor (40 bytes plus 3 per rate).
pub open spec fn descriptor_bytes_through(slot: int) -> int
    decreases slot,
{
    if slot <= 0 {
        96
    } else {
        descriptor_bytes_through(slot - 1) + 2 * (40 + 3 * format_rates(slot - 1).len())
    }
}

pub fn config_descriptor_capacity() -> (n: usize)
    ensures
        n == CONFIG_DESCRIPTOR_CAPACITY,
        n == descriptor_bytes_through(FORMAT_COUNT as int),
{
    let formats = pcm_formats();
    let mut total: usize = 96;
    let mut slot: usize = 0;
    while slot < FORMAT_COUNT
        invariant
            slot <= FORMAT_COUNT,
            formats@.len() == FORMAT_COUNT,
            forall|s: int| 0 <= s < FORMAT_COUNT ==> is_table_format(#[trigger] formats@[s], s),
            total == descriptor_bytes_through(slot as int),
            total <= 96 + 104 * slot,
        decreases FORMAT_COUNT - slot,
    {
        assert(is_table_format(formats@[slot as int], slot as int));
        total += 2 * (40 + 3 * formats[slot].rates.len());
        slot += 1;
    }
    proof {
        reveal_with_fuel(descriptor_bytes_through, 4);
    }
    total
}


/// Queue `i` belongs to some advertised (format, rate) combination.
pub open spec fn queue_has_owner(i: int) -> bool {
    exists|s: int, r: SampleRate| is_advertised(s, r) && #[trigger] is_queue_index(s, r, i)
}

proof fn lemma_rates_before_values()
    ensures
        rates_before(0) == 0,
        rates_before(1) == 4,
        rates_before(2) == 8,
        rates_before(3) == 10,
{
    reveal_with_fuel(rates_before, 4);
}

/// Every advertised (format, rate) combination has a queue of its own, and
/// every queue belongs to exactly one advertised combination.
pub proof fn lemma_queue_index_is_bijective()
    ensures
        forall|s: int, r: SampleRate, i: int|
            is_advertised(s, r) && #[trigger] is_queue_index(s, r, i) ==> 0 <= i < FORMAT_RATE_COUNT,
        forall|s1: int, r1: SampleRate, s2: int, r2: SampleRate, i: int|
            is_advertised(s1, r1) && is_advertised(s2, r2) && #[trigger] is_queue_index(s1, r1, i)
                && #[trigger] is_queue_index(s2, r2, i) ==> s1 == s2 && r1 == r2,
        forall|i: int| 0 <= i < FORMAT_RATE_COUNT ==> #[trigger] queue_has_owner(i),
{
    lemma_rates_before_values();
    assert forall|s: int, r: SampleRate, i: int|
        is_advertised(s, r) && #[trigger] is_queue_index(s, r, i) implies 0 <= i < FORMAT_RATE_COUNT by {
        assert(s == 0 || s == 1 || s == 2);
    }
    assert forall|s1: int, r1: SampleRate, s2: int, r2: SampleRate, i: int|
        is_advertised(s1, r1) && is_advertised(s2, r2) && #[trigger] is_queue_index(s1, r1, i)
            && #[trigger] is_queue_index(s2, r2, i) implies s1 == s2 && r1 == r2 by {
        assert(s1 == 0 || s1 == 1 || s1 == 2);
        assert(s2 == 0 || s2 == 1 || s2 == 2);
    }
    assert forall|i: int| 0 <= i < FORMAT_RATE_COUNT implies #[trigger] queue_has_owner(i) by {
        let s: int = if i < 4 { 0 } else if i < 8 { 1 } else { 2 };
        let p = i - rates_before(s);
        let r = format_rates(s)[p];
        assert(format_rates(s).contains(r));
        assert(is_advertised(s, r));
        assert(is_queue_index(s, r, i));
    }
}


/// The alternate settings of the format register are the descriptors'
/// alternate settings: zero is the zero-bandwidth setting, and setting
/// `n > 0` is table slot `n - 1`, with that slot's frame size and exactly
/// that slot's rates.
pub proof fn lemma_alternate_settings_follow_format_table(alt: AudioStreamingAlternateSetting, rate: SampleRate)
    ensures
        alt_number(alt) <= FORMAT_COUNT,
        (alt_number(alt) == 0) == (alt == AudioStreamingAlternateSetting::Inactive),
        alt_number(alt) > 0 ==> alt_frame_bytes(alt) == CHANNELS * width_bytes(format_width(alt_number(alt) - 1)),
        alt_number(alt) > 0 ==> (alt_supports(alt, rate) <==> format_rates(alt_number(alt) - 1).contains(rate)),
{
    let all = format_rates(0);
    assert(all[0] == SampleRate::R44100 && all[1] == SampleRate::R48000 && all[2] == SampleRate::R88200
        && all[3] == SampleRate::R96000);
    let two = format_rates(2);
    assert(two[0] == SampleRate::R44100 && two[1] == SampleRate::R48000);
    match rate {
        SampleRate::R44100 => {
            assert(all.contains(rate) && two.contains(rate));
        },
        SampleRate::R48000 => {
            assert(all.contains(rate) && two.contains(rate));
        },
        SampleRate::R88200 => {
            assert(all.contains(rate));
        },
        SampleRate::R96000 => {
            assert(all.contains(rate));
        },
    }
    assert(format_rates(1) == all);
}

} // verus!
