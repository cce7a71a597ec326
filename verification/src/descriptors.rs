//! Class-specific descriptor bodies of the audio function. Each body is
//! written by the USB builder after its length and descriptor-type bytes.

use vstd::prelude::*;
use crate::audio::rate_hz;
use crate::control::{le24, le24_bytes};
use crate::pcm::{CHANNELS, MAX_RATES_PER_FORMAT, PcmFormat, width_bits, width_bytes};

verus! {

pub const USB_CLASS_AUDIO: u8 = 0x01;
pub const USB_SUBCLASS_AUDIO_CONTROL: u8 = 0x01;
pub const USB_SUBCLASS_AUDIO_STREAMING: u8 = 0x02;
pub const USB_AUDIO_PROTOCOL_UNDEFINED: u8 = 0x00;

pub const CS_INTERFACE: u8 = 0x24;
pub const CS_ENDPOINT: u8 = 0x25;

pub const AC_HEADER: u8 = 0x01;
pub const AC_INPUT_TERMINAL: u8 = 0x02;
pub const AC_OUTPUT_TERMINAL: u8 = 0x03;
pub const AS_GENERAL: u8 = 0x01;
pub const FORMAT_TYPE: u8 = 0x02;
pub const FORMAT_TYPE_I: u8 = 0x01;
pub const EP_GENERAL: u8 = 0x01;

pub const FORMAT_PCM: u16 = 0x0001;
/// wTotalLength of the class-specific AudioControl descriptors.
pub const AC_TOTAL_LENGTH: u16 = 52;

/// The ID of a unit or terminal of the audio topology.
#[derive(Clone, Copy, Debug, PartialEq, Eq, Structural)]
pub struct AudioEntityId(pub u8);

pub const PLAYBACK_USB_TERMINAL_ID: u8 = 1;
pub const PLAYBACK_LINE_TERMINAL_ID: u8 = 2;
pub const CAPTURE_LINE_TERMINAL_ID: u8 = 3;
pub const CAPTURE_USB_TERMINAL_ID: u8 = 4;

/// UAC1 terminal types: USB streaming, and the line connector that both
/// directions present to the host.
#[derive(Clone, Copy, Debug, PartialEq, Eq, Structural)]
pub enum TerminalType {
    UsbStreaming,
    LineConnector,
}

pub open spec fn terminal_type_code(t: TerminalType) -> u16 {
    match t {
        TerminalType::UsbStreaming => 0x0101,
        TerminalType::LineConnector => 0x0603,
    }
}

/// The two little-endian bytes of a 16-bit value.
pub open spec fn le16_bytes(v: u16) -> Seq<u8> {
    seq![(v % 256) as u8, (v / 256) as u8]
}

impl TerminalType {
    pub fn to_le_bytes(self) -> (b: [u8; 2])
        ensures
            b@ == le16_bytes(terminal_type_code(self)),
    {
        let b = match self {
            TerminalType::UsbStreaming => [0x01u8, 0x01u8],
            TerminalType::LineConnector => [0x03u8, 0x06u8],
        };
        assert(b@ =~= le16_bytes(terminal_type_code(self)));
        b
    }
}

/// A channel-cluster configuration bitmap.
#[derive(Clone, Copy, Debug, PartialEq, Eq, Structural)]
pub struct ChannelConfig(pub u16);

impl ChannelConfig {
    /// Left and right front.
    pub fn stereo() -> (c: Self)
        ensures
            c.0 == 0x0003,
    {
        ChannelConfig(0x0003)
    }

    pub fn to_le_bytes(self) -> (b: [u8; 2])
        ensures
            b@ == le16_bytes(self.0),
    {
        let v = self.0;
        let b = [(v & 0xff) as u8, (v >> 8) as u8];
        assert((v & 0xff) as u8 == (v % 256) as u8) by (bit_vector);
        assert((v >> 8) as u8 == (v / 256) as u8) by (bit_vector);
        assert(b@ =~= le16_bytes(self.0));
        b
    }
}

/// The class-specific AudioControl header: UAC 1.0, wTotalLength, and the
/// two streaming interfaces it covers.
pub open spec fn ac_header_bytes(playback_interface: u8, capture_interface: u8) -> Seq<u8> {
    seq![AC_HEADER, 0x00, 0x01, 52, 0, 0x02, playback_interface, capture_interface]
}

pub open spec fn input_terminal_bytes(id: u8, t: TerminalType, channels: u8, config: u16) -> Seq<u8> {
    seq![AC_INPUT_TERMINAL, id] + le16_bytes(terminal_type_code(t)) + seq![0x00, channels] + le16_bytes(config)
        + seq![0x00, 0x00]
}

pub open spec fn output_terminal_bytes(id: u8, t: TerminalType, source: u8) -> Seq<u8> {
    seq![AC_OUTPUT_TERMINAL, id] + le16_bytes(terminal_type_code(t)) + seq![0x00, source, 0x00]
}

/// The AudioControl topology: USB streaming into a line output for
/// playback, line input into USB streaming for capture.
pub open spec fn audio_control_bytes(playback_interface: u8, capture_interface: u8) -> Seq<Seq<u8>> {
    seq![
        ac_header_bytes(playback_interface, capture_interface),
        input_terminal_bytes(PLAYBACK_USB_TERMINAL_ID, TerminalType::UsbStreaming, CHANNELS, 0x0003),
        output_terminal_bytes(PLAYBACK_LINE_TERMINAL_ID, TerminalType::LineConnector, PLAYBACK_USB_TERMINAL_ID),
        input_terminal_bytes(CAPTURE_LINE_TERMINAL_ID, TerminalType::LineConnector, CHANNELS, 0x0003),
        output_terminal_bytes(CAPTURE_USB_TERMINAL_ID, TerminalType::UsbStreaming, CAPTURE_LINE_TERMINAL_ID),
    ]
}

/// Total length of descriptors written with these bodies (each descriptor
/// adds its length and type bytes).
pub open spec fn descriptors_total_length(bodies: Seq<Seq<u8>>) -> int
    decreases bodies.len(),
{
    if bodies.len() == 0 {
        0
    } else {
        descriptors_total_length(bodies.drop_last()) + bodies.last().len() + 2
    }
}

fn ac_header(playback_interface: u8, capture_interface: u8) -> (b: Vec<u8>)
    ensures
        b@ == ac_header_bytes(playback_interface, capture_interface),
{
    let b = vec![AC_HEADER, 0x00, 0x01, 52u8, 0u8, 0x02, playback_interface, capture_interface];
    assert(b@ =~= ac_header_bytes(playback_interface, capture_interface));
    b
}

/// The body of an Input Terminal descriptor.
pub fn input_terminal(
    terminal_id: AudioEntityId,
    terminal_type: TerminalType,
    channels: u8,
    channel_config: ChannelConfig,
) -> (b: Vec<u8>)
    ensures
        b@ == input_terminal_bytes(terminal_id.0, terminal_type, channels, channel_config.0),
{
    let t = terminal_type.to_le_bytes();
    let c = channel_config.to_le_bytes();
    let b = vec![AC_INPUT_TERMINAL, terminal_id.0, t[0], t[1], 0x00, channels, c[0], c[1], 0x00, 0x00];
    assert(b@ =~= input_terminal_bytes(terminal_id.0, terminal_type, channels, channel_config.0));
    b
}

/// The body of an Output Terminal descriptor.
pub fn output_terminal(terminal_id: AudioEntityId, terminal_type: TerminalType, source_id: AudioEntityId) -> (b: Vec<u8>)
    ensures
        b@ == output_terminal_bytes(terminal_id.0, terminal_type, source_id.0),
{
    let t = terminal_type.to_le_bytes();
    let b = vec![AC_OUTPUT_TERMINAL, terminal_id.0, t[0], t[1], 0x00, source_id.0, 0x00];
    assert(b@ =~= output_terminal_bytes(terminal_id.0, terminal_type, source_id.0));
    b
}

/// The class-specific AudioControl descriptor bodies, in the order they are
/// written; their total length is the header's wTotalLength.
pub fn audio_control_descriptors(playback_interface: u8, capture_interface: u8) -> (d: Vec<Vec<u8>>)
    ensures
        d@.len() == 5,
        forall|i: int| 0 <= i < 5 ==> (#[trigger] d@[i])@ == audio_control_bytes(playback_interface, capture_interface)[i],
        descriptors_total_length(audio_control_bytes(playback_interface, capture_interface)) == AC_TOTAL_LENGTH,
{
    let mut d: Vec<Vec<u8>> = Vec::new();
    d.push(ac_header(playback_interface, capture_interface));
    d.push(input_terminal(AudioEntityId(PLAYBACK_USB_TERMINAL_ID), TerminalType::UsbStreaming, CHANNELS, ChannelConfig::stereo()));
    d.push(output_terminal(AudioEntityId(PLAYBACK_LINE_TERMINAL_ID), TerminalType::LineConnector, AudioEntityId(PLAYBACK_USB_TERMINAL_ID)));
    d.push(input_terminal(AudioEntityId(CAPTURE_LINE_TERMINAL_ID), TerminalType::LineConnector, CHANNELS, ChannelConfig::stereo()));
    d.push(output_terminal(AudioEntityId(CAPTURE_USB_TERMINAL_ID), TerminalType::UsbStreaming, AudioEntityId(CAPTURE_LINE_TERMINAL_ID)));
    proof {
        let bodies = audio_control_bytes(playback_interface, capture_interface);
        reveal_with_fuel(descriptors_total_length, 6);
        assert(bodies.drop_last().drop_last().drop_last().drop_last().drop_last() =~= Seq::<Seq<u8>>::empty());
        assert(bodies[0].len() == 8);
        assert(bodies[1].len() == 10);
        assert(bodies[2].len() == 7);
        assert(bodies[3].len() == 10);
        assert(bodies[4].len() == 7);
    }
    d
}

/// The body of the AS General descriptor: the terminal the stream is linked
/// to, one frame of delay, PCM.
pub fn as_general(terminal_link: AudioEntityId) -> (b: Vec<u8>)
    ensures
        b@ == seq![AS_GENERAL, terminal_link.0, 0x01u8] + le16_bytes(FORMAT_PCM),
{
    let b = vec![AS_GENERAL, terminal_link.0, 0x01, 0x01, 0x00];
    assert(b@ =~= seq![AS_GENERAL, terminal_link.0, 0x01u8] + le16_bytes(FORMAT_PCM));
    b
}

/// The discrete sample frequencies of a format, each as three little-endian bytes.
pub open spec fn rate_table_bytes(rates: Seq<crate::audio::SampleRate>) -> Seq<u8>
    decreases rates.len(),
{
    if rates.len() == 0 {
        Seq::empty()
    } else {
        rate_table_bytes(rates.drop_last()) + le24_bytes(rate_hz(rates.last()) as int)@
    }
}

/// The Type I format descriptor body: channels, subframe size, bit
/// resolution, bSamFreqType and the 24-bit tSamFreq entries.
pub open spec fn format_type_bytes(f: PcmFormat) -> Seq<u8> {
    seq![FORMAT_TYPE, FORMAT_TYPE_I, CHANNELS, width_bytes(f.sample), width_bits(f.sample), f.rates@.len() as u8]
        + rate_table_bytes(f.rates@)
}

proof fn lemma_rate_entry_reads_back(rate: crate::audio::SampleRate)
    ensures
        ({
            let e = le24_bytes(rate_hz(rate) as int)@;
            &&& e.len() == 3
            &&& le24(e[0], e[1], e[2]) == rate_hz(rate)
        }),
{
    match rate {
        crate::audio::SampleRate::R44100 => {},
        crate::audio::SampleRate::R48000 => {},
        crate::audio::SampleRate::R88200 => {},
        crate::audio::SampleRate::R96000 => {},
    }
}

proof fn lemma_rate_table_reads_back(rates: Seq<crate::audio::SampleRate>)
    ensures
        rate_table_bytes(rates).len() == 3 * rates.len(),
        forall|i: int| 0 <= i < rates.len() ==> #[trigger] le24(
            rate_table_bytes(rates)[3 * i],
            rate_table_bytes(rates)[3 * i + 1],
            rate_table_bytes(rates)[3 * i + 2],
        ) == rate_hz(rates[i]),
    decreases rates.len(),
{
    if rates.len() > 0 {
        let init = rates.drop_last();
        lemma_rate_table_reads_back(init);
        lemma_rate_entry_reads_back(rates.last());
        let t = rate_table_bytes(rates);
        let p = rate_table_bytes(init);
        let e = le24_bytes(rate_hz(rates.last()) as int)@;
        assert(t == p + e);
        assert forall|i: int| 0 <= i < rates.len() implies #[trigger] le24(t[3 * i], t[3 * i + 1], t[3 * i + 2])
            == rate_hz(rates[i]) by {
            if i < rates.len() - 1 {
                assert(rates[i] == init[i]);
                assert(le24(p[3 * i], p[3 * i + 1], p[3 * i + 2]) == rate_hz(init[i]));
            } else {
                assert(3 * i == p.len());
            }
        }
    }
}

/// Every tSamFreq entry of a Type I format descriptor, read back as the
/// 24-bit little-endian value a host reads, is the frequency in Hz of the
/// format's rate at that position; the header before them is format type
/// 2, Type I, two channels, the subframe size, the bit resolution and the
/// number of rates.
pub proof fn lemma_format_descriptor_lists_rates_in_hz(f: PcmFormat)
    requires
        f.rates@.len() <= MAX_RATES_PER_FORMAT,
    ensures
        ({
            let b = format_type_bytes(f);
            let n = f.rates@.len() as int;
            &&& b.len() == 6 + 3 * n
            &&& b[0] == 0x02 && b[1] == 0x01 && b[2] == 2
            &&& b[3] == width_bytes(f.sample) && b[4] == width_bits(f.sample) && b[5] == n
            &&& forall|i: int| 0 <= i < n ==> #[trigger] le24(b[6 + 3 * i], b[7 + 3 * i], b[8 + 3 * i]) == rate_hz(f.rates@[i])
        }),
{
    let b = format_type_bytes(f);
    let t = rate_table_bytes(f.rates@);
    lemma_rate_table_reads_back(f.rates@);
    assert forall|i: int| 0 <= i < f.rates@.len() implies #[trigger] le24(b[6 + 3 * i], b[7 + 3 * i], b[8 + 3 * i])
        == rate_hz(f.rates@[i]) by {
        assert(b[6 + 3 * i] == t[3 * i]);
        assert(b[7 + 3 * i] == t[3 * i + 1]);
        assert(b[8 + 3 * i] == t[3 * i + 2]);
        assert(le24(t[3 * i], t[3 * i + 1], t[3 * i + 2]) == rate_hz(f.rates@[i]));
    }
}

pub fn format_type_descriptor(format: &PcmFormat) -> (b: Vec<u8>)
    requires
        format.rates@.len() <= MAX_RATES_PER_FORMAT,
    ensures
        b@ == format_type_bytes(*format),
{
    let mut b: Vec<u8> = Vec::new();
    b.push(FORMAT_TYPE);
    b.push(FORMAT_TYPE_I);
    b.push(CHANNELS);
    b.push(format.sample.byte_width());
    b.push(format.sample.bit_resolution());
    b.push(format.rates.len() as u8);
    let mut index: usize = 0;
    while index < format.rates.len()
        invariant
            index <= format.rates@.len(),
            format.rates@.len() <= MAX_RATES_PER_FORMAT,
            b@ == seq![FORMAT_TYPE, FORMAT_TYPE_I, CHANNELS, width_bytes(format.sample), width_bits(format.sample), format.rates@.len() as u8]
                + rate_table_bytes(format.rates@.take(index as int)),
        decreases format.rates@.len() - index,
    {
        let hz = format.rates[index].hz();
        let v = crate::control::u24_le_bytes(hz);
        b.push(v[0]);
        b.push(v[1]);
        b.push(v[2]);
        proof {
            let t = format.rates@.take(index as int + 1);
            assert(t.drop_last() =~= format.rates@.take(index as int));
            assert(t.last() == format.rates@[index as int]);
        }
        index += 1;
    }
    proof {
        assert(format.rates@.take(index as int) =~= format.rates@);
    }
    b
}

/// The class-specific endpoint descriptor body: sampling frequency control
/// supported, no pitch control, no lock delay.
pub fn sampling_frequency_control() -> (b: Vec<u8>)
    ensures
        b@ == seq![EP_GENERAL, 0x01u8, 0x00u8, 0x00u8, 0x00u8],
{
    let b = vec![EP_GENERAL, 0x01, 0x00, 0x00, 0x00];
    assert(b@ =~= seq![EP_GENERAL, 0x01u8, 0x00u8, 0x00u8, 0x00u8]);
    b
}

} // verus!
