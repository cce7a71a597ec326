//! Class-specific control requests of the AudioStreaming endpoints: the
//! Sampling Frequency Control (SET_CUR, GET_CUR, GET_MIN, GET_MAX, GET_RES)
//! and alternate-setting selection.

use vstd::prelude::*;
use crate::audio::{SampleRate, rate_hz, supported_sample_rates};
use crate::pcm::{
    FORMAT_COUNT, PcmFormat, StreamDirection, format_by_endpoint_slot, format_slot_by_alternate_setting,
    is_table_format, is_max_rate, is_min_rate, DEFAULT_RATE, format_rates,
};
use crate::streams::EndpointRate;

verus! {

pub const SET_CUR: u8 = 0x01;
pub const GET_CUR: u8 = 0x81;
pub const GET_MIN: u8 = 0x82;
pub const GET_MAX: u8 = 0x83;
pub const GET_RES: u8 = 0x84;
pub const SAMPLING_FREQ_CONTROL: u8 = 0x01;

#[derive(Clone, Copy, Debug, PartialEq, Eq, Structural)]
pub enum RequestType {
    Standard,
    Class,
    Vendor,
    Reserved,
}

#[derive(Clone, Copy, Debug, PartialEq, Eq, Structural)]
pub enum Recipient {
    Device,
    Interface,
    Endpoint,
    Other,
    Reserved,
}

/// The fields of a control SETUP packet that the handler reads.
#[derive(Clone, Copy, Debug, PartialEq, Eq, Structural)]
pub struct ControlRequest {
    pub request_type: RequestType,
    pub recipient: Recipient,
    pub request: u8,
    pub value: u16,
    pub index: u16,
}

#[derive(Clone, Copy, Debug, PartialEq, Eq, Structural)]
pub enum OutResponse {
    Accepted,
    Rejected,
}

#[derive(Clone, Copy, Debug, PartialEq, Eq)]
pub enum InResponse {
    /// A three-byte little-endian frequency.
    Accepted([u8; 3]),
    Rejected,
}

/// A new value for one endpoint's rate, to be sent to that endpoint's tasks
/// (every send notifies them, even of an unchanged value).
#[derive(Clone, Copy, Debug, PartialEq, Eq, Structural)]
pub struct RateUpdate {
    pub direction: StreamDirection,
    pub slot: usize,
    pub rate: EndpointRate,
}

/// Interface numbers and endpoint addresses of the audio function.
#[derive(Clone, Copy, Debug, PartialEq, Eq)]
pub struct AudioControlMap {
    pub playback_interface: u8,
    pub capture_interface: u8,
    pub playback_endpoint_addresses: [u8; 3],
    pub capture_endpoint_addresses: [u8; 3],
}

/// The current rate of every endpoint, by direction and format slot.
#[derive(Clone, Copy, Debug, PartialEq, Eq)]
pub struct EndpointRateSnapshot {
    pub playback: [EndpointRate; 3],
    pub capture: [EndpointRate; 3],
}

pub open spec fn snapshot_rate(s: EndpointRateSnapshot, direction: StreamDirection, slot: int) -> EndpointRate {
    match direction {
        StreamDirection::Playback => s.playback@[slot],
        StreamDirection::Capture => s.capture@[slot],
    }
}

pub struct AudioControl {
    pub control_map: AudioControlMap,
}

/// The control selector is the high byte of wValue.
pub open spec fn control_selector(value: u16) -> u8 {
    (value / 256) as u8
}

/// An endpoint address is the low byte of wIndex.
pub open spec fn index_address(index: u16) -> u8 {
    (index % 256) as u8
}

/// `i` is the first position of `a` among `addrs`.
pub open spec fn is_first_position(addrs: Seq<u8>, a: u8, i: int) -> bool {
    &&& 0 <= i < addrs.len()
    &&& addrs[i] == a
    &&& forall|j: int| 0 <= j < i ==> addrs[j] != a
}

/// The endpoint with address `a`: a playback endpoint takes precedence,
/// and the first matching slot is used.
pub open spec fn endpoint_at(map: AudioControlMap, a: u8) -> Option<(StreamDirection, int)> {
    if map.playback_endpoint_addresses@.contains(a) {
        Some((StreamDirection::Playback, choose|i: int| is_first_position(map.playback_endpoint_addresses@, a, i)))
    } else if map.capture_endpoint_addresses@.contains(a) {
        Some((StreamDirection::Capture, choose|i: int| is_first_position(map.capture_endpoint_addresses@, a, i)))
    } else {
        None
    }
}

/// The 24-bit little-endian value of three bytes.
pub open spec fn le24(b0: u8, b1: u8, b2: u8) -> int {
    b0 + 256 * b1 + 65536 * b2
}

/// The rate requested by a SET_CUR payload: exactly three bytes holding an
/// advertised frequency.
pub open spec fn requested_rate_spec(data: Seq<u8>) -> Option<SampleRate> {
    if data.len() == 3 {
        let hz = le24(data[0], data[1], data[2]);
        if hz == 44_100 {
            Some(SampleRate::R44100)
        } else if hz == 48_000 {
            Some(SampleRate::R48000)
        } else if hz == 88_200 {
            Some(SampleRate::R88200)
        } else if hz == 96_000 {
            Some(SampleRate::R96000)
        } else {
            None
        }
    } else {
        None
    }
}

/// The three little-endian bytes of a value below 2^24.
pub open spec fn le24_bytes(v: int) -> [u8; 3] {
    [(v % 256) as u8, ((v / 256) % 256) as u8, ((v / 65536) % 256) as u8]
}

proof fn lemma_le24(b0: u8, b1: u8, b2: u8)
    ensures
        (b0 as u32) | ((b1 as u32) << 8u32) | ((b2 as u32) << 16u32) == le24(b0, b1, b2),
{
    let v = (b0 as u32) | ((b1 as u32) << 8u32) | ((b2 as u32) << 16u32);
    assert(v == (b0 as u32) + 256 * (b1 as u32) + 65536 * (b2 as u32)) by (bit_vector)
        requires
            v == (b0 as u32) | ((b1 as u32) << 8u32) | ((b2 as u32) << 16u32),
    ;
}

pub fn u24_le_bytes(v: u32) -> (b: [u8; 3])
    requires
        v < 0x100_0000,
    ensures
        b@ == le24_bytes(v as int)@,
{
    let b0 = (v & 0xff) as u8;
    let b1 = ((v >> 8) & 0xff) as u8;
    let b2 = ((v >> 16) & 0xff) as u8;
    assert(v & 0xff == v % 256) by (bit_vector);
    assert((v >> 8) & 0xff == (v / 256) % 256) by (bit_vector);
    assert((v >> 16) & 0xff == (v / 65536) % 256) by (bit_vector);
    let b = [b0, b1, b2];
    assert(b@ =~= le24_bytes(v as int)@);
    b
}

/// A frequency as GET_CUR reports it, written back with SET_CUR, selects
/// the same rate: the two requests use one encoding.
pub proof fn lemma_reported_rate_is_requested_rate(rate: SampleRate)
    ensures
        requested_rate_spec(le24_bytes(rate_hz(rate) as int)@) == Some(rate),
{
    let b = le24_bytes(rate_hz(rate) as int)@;
    assert(b.len() == 3);
    assert(le24(b[0], b[1], b[2]) == rate_hz(rate));
}

/// The rate a SET_CUR payload asks for.
pub fn requested_rate(data: &[u8]) -> (r: Option<SampleRate>)
    ensures
        r == requested_rate_spec(data@),
{
    if data.len() < 3 {
        return None;
    }
    let b0 = data[0];
    let b1 = data[1];
    let b2 = data[2];
    if data.len() != 3 {
        return None;
    }
    proof {
        lemma_le24(b0, b1, b2);
    }
    let hz = (b0 as u32) | ((b1 as u32) << 8) | ((b2 as u32) << 16);
    let r = SampleRate::from_hz(hz);
    proof {
        assert(supported_sample_rates()[0] == 44_100u32);
        assert(supported_sample_rates()[1] == 48_000u32);
        assert(supported_sample_rates()[2] == 88_200u32);
        assert(supported_sample_rates()[3] == 96_000u32);
    }
    r
}

/// GET_CUR: the endpoint's configured rate; an unset endpoint is configured
/// with `default` and reports it.
pub fn get_or_configure_rate(rate_watch: &mut EndpointRate, default: SampleRate) -> (r: SampleRate)
    ensures
        match *old(rate_watch) {
            EndpointRate::Configured(rate) => r == rate && *final(rate_watch) == *old(rate_watch),
            EndpointRate::Unset => r == default && *final(rate_watch) == EndpointRate::Configured(default),
        },
{
    match *rate_watch {
        EndpointRate::Configured(rate) => rate,
        EndpointRate::Unset => {
            *rate_watch = EndpointRate::Configured(default);
            default
        },
    }
}

/// The endpoint address a request's wIndex names.
pub fn endpoint_address(index: u16) -> (a: u8)
    ensures
        a == index_address(index),
{
    proof {
        lemma_address(index);
    }
    (index & 0xff) as u8
}

proof fn lemma_address(index: u16)
    ensures
        (index & 0xffu16) as u8 == index_address(index),
{
    assert((index & 0xffu16) as u8 == (index % 256) as u8) by (bit_vector);
}

proof fn lemma_selector(value: u16)
    ensures
        (value >> 8u16) as u8 == control_selector(value),
{
    assert((value >> 8u16) as u8 == (value / 256) as u8) by (bit_vector);
}

fn position(addrs: &[u8; 3], a: u8) -> (r: Option<usize>)
    ensures
        addrs@.contains(a) ==> (r matches Some(i) && is_first_position(addrs@, a, i as int)),
        !addrs@.contains(a) ==> r is None,
{
    let mut i: usize = 0;
    while i < 3
        invariant
            i <= 3,
            addrs@.len() == 3,
            forall|j: int| 0 <= j < i ==> addrs@[j] != a,
        decreases 3 - i,
    {
        if addrs[i] == a {
            return Some(i);
        }
        i += 1;
    }
    None
}

proof fn lemma_first_position_unique(addrs: Seq<u8>, a: u8, i: int)
    requires
        is_first_position(addrs, a, i),
    ensures
        (choose|k: int| is_first_position(addrs, a, k)) == i,
{
    let k = choose|k: int| is_first_position(addrs, a, k);
    assert(is_first_position(addrs, a, k));
}

impl AudioControl {
    pub fn new(control_map: AudioControlMap) -> (c: Self)
        ensures
            c.control_map == control_map,
    {
        AudioControl { control_map }
    }

    pub fn direction_for_interface(&self, interface: u8) -> (r: Option<StreamDirection>)
        ensures
            interface == self.control_map.playback_interface ==> r == Some(StreamDirection::Playback),
            interface != self.control_map.playback_interface && interface == self.control_map.capture_interface
                ==> r == Some(StreamDirection::Capture),
            interface != self.control_map.playback_interface && interface != self.control_map.capture_interface
                ==> r is None,
    {
        if interface == self.control_map.playback_interface {
            Some(StreamDirection::Playback)
        } else if interface == self.control_map.capture_interface {
            Some(StreamDirection::Capture)
        } else {
            None
        }
    }

    /// The direction, format slot and format of the endpoint with this address.
    pub fn endpoint_format(&self, endpoint_address: u8) -> (r: Option<(StreamDirection, usize, &'static PcmFormat)>)
        ensures
            match endpoint_at(self.control_map, endpoint_address) {
                Some((d, slot)) => r matches Some((d2, s2, f)) && d2 == d && s2 == slot && is_table_format(*f, slot),
                None => r is None,
            },
            r matches Some((_, s, _)) ==> s < FORMAT_COUNT,
    {
        if let Some(slot) = position(&self.control_map.playback_endpoint_addresses, endpoint_address) {
            proof {
                lemma_first_position_unique(self.control_map.playback_endpoint_addresses@, endpoint_address, slot as int);
            }
            return match format_by_endpoint_slot(slot) {
                Some(f) => Some((StreamDirection::Playback, slot, f)),
                None => None,
            };
        }
        let slot = match position(&self.control_map.capture_endpoint_addresses, endpoint_address) {
            Some(slot) => slot,
            None => {
                return None;
            },
        };
        proof {
            lemma_first_position_unique(self.control_map.capture_endpoint_addresses@, endpoint_address, slot as int);
        }
        match format_by_endpoint_slot(slot) {
            Some(f) => Some((StreamDirection::Capture, slot, f)),
            None => None,
        }
    }

    /// Selecting a nonzero alternate setting on an audio streaming interface
    /// re-sends that endpoint's current rate, so its tasks restart from it.
    /// Returns the endpoint to notify.
    pub fn set_alternate_setting(&self, interface: u8, alternate_setting: u8) -> (r: Option<(StreamDirection, usize)>)
        ensures
            match self.direction_for_interface_spec(interface) {
                Some(d) => if 1 <= alternate_setting <= FORMAT_COUNT {
                    r == Some((d, (alternate_setting - 1) as usize))
                } else {
                    r is None
                },
                None => r is None,
            },
    {
        let direction = match self.direction_for_interface(interface) {
            Some(d) => d,
            None => {
                return None;
            },
        };
        let slot = match format_slot_by_alternate_setting(alternate_setting) {
            Some(s) => s,
            None => {
                return None;
            },
        };
        Some((direction, slot))
    }

    pub open spec fn direction_for_interface_spec(&self, interface: u8) -> Option<StreamDirection> {
        if interface == self.control_map.playback_interface {
            Some(StreamDirection::Playback)
        } else if interface == self.control_map.capture_interface {
            Some(StreamDirection::Capture)
        } else {
            None
        }
    }

    /// Whether a request is a class request to an endpoint for the Sampling
    /// Frequency Control.
    pub open spec fn is_sampling_request(req: ControlRequest) -> bool {
        &&& req.request_type == RequestType::Class
        &&& req.recipient == Recipient::Endpoint
        &&& control_selector(req.value) == SAMPLING_FREQ_CONTROL
    }

    /// SET_CUR of the Sampling Frequency Control: an advertised rate of the
    /// addressed endpoint's format is accepted and sent to that endpoint
    /// alone; any other payload is rejected. Requests for other recipients,
    /// controls or endpoints are not handled here (`None`).
    pub fn control_out(&self, req: ControlRequest, data: &[u8]) -> (r: Option<(OutResponse, Option<RateUpdate>)>)
        ensures
            !(Self::is_sampling_request(req) && req.request == SET_CUR) ==> r is None,
            Self::is_sampling_request(req) && req.request == SET_CUR ==> match endpoint_at(self.control_map, index_address(req.index)) {
                None => r is None,
                Some((d, slot)) => match requested_rate_spec(data@) {
                    Some(rate) if format_rates(slot).contains(rate) => r == Some(
                        (OutResponse::Accepted, Some(RateUpdate { direction: d, slot: slot as usize, rate: EndpointRate::Configured(rate) })),
                    ),
                    _ => r == Some((OutResponse::Rejected, None::<RateUpdate>)),
                },
            },
    {
        let value = req.value;
        let control_selector = (value >> 8) as u8;
        proof {
            lemma_selector(value);
        }
        if req.request_type != RequestType::Class || req.recipient != Recipient::Endpoint || req.request != SET_CUR
            || control_selector != SAMPLING_FREQ_CONTROL {
            return None;
        }
        let endpoint_address = endpoint_address(req.index);
        let (direction, slot, format) = match self.endpoint_format(endpoint_address) {
            Some(found) => found,
            None => {
                return None;
            },
        };
        let rate = match requested_rate(data) {
            Some(rate) => rate,
            None => {
                return Some((OutResponse::Rejected, None));
            },
        };
        if !format.supports(rate) {
            return Some((OutResponse::Rejected, None));
        }
        Some((OutResponse::Accepted, Some(RateUpdate { direction, slot, rate: EndpointRate::Configured(rate) })))
    }

    /// GET requests of the Sampling Frequency Control, answered with a
    /// three-byte little-endian frequency: GET_CUR reports the endpoint's
    /// rate (configuring the format default on an unset endpoint), GET_MIN
    /// and GET_MAX the format's slowest and fastest rate, GET_RES 1 Hz. A
    /// buffer shorter than three bytes or another request is rejected.
    pub fn control_in(&self, req: ControlRequest, buf_len: usize, rates: &EndpointRateSnapshot) -> (r: Option<(InResponse, Option<RateUpdate>)>)
        ensures
            !Self::is_sampling_request(req) ==> r is None,
            Self::is_sampling_request(req) ==> match endpoint_at(self.control_map, index_address(req.index)) {
                None => r is None,
                Some((d, slot)) => if buf_len < 3 {
                    r == Some((InResponse::Rejected, None::<RateUpdate>))
                } else if req.request == GET_CUR {
                    let current = snapshot_rate(*rates, d, slot);
                    let default = if format_rates(slot).contains(DEFAULT_RATE) { DEFAULT_RATE } else { SampleRate::R44100 };
                    match current {
                        EndpointRate::Configured(rate) => r == Some((InResponse::Accepted(le24_bytes(rate_hz(rate) as int)), None::<RateUpdate>)),
                        EndpointRate::Unset => r == Some((
                            InResponse::Accepted(le24_bytes(rate_hz(default) as int)),
                            Some(RateUpdate { direction: d, slot: slot as usize, rate: EndpointRate::Configured(default) }),
                        )),
                    }
                } else if req.request == GET_MIN {
                    exists|m: SampleRate| is_min_rate(format_rates(slot), m) && r == Some((InResponse::Accepted(le24_bytes(rate_hz(m) as int)), None::<RateUpdate>))
                } else if req.request == GET_MAX {
                    exists|m: SampleRate| is_max_rate(format_rates(slot), m) && r == Some((InResponse::Accepted(le24_bytes(rate_hz(m) as int)), None::<RateUpdate>))
                } else if req.request == GET_RES {
                    r == Some((InResponse::Accepted(le24_bytes(1)), None::<RateUpdate>))
                } else {
                    r == Some((InResponse::Rejected, None::<RateUpdate>))
                },
            },
    {
        let value = req.value;
        let control_selector = (value >> 8) as u8;
        proof {
            lemma_selector(value);
        }
        if req.request_type != RequestType::Class || req.recipient != Recipient::Endpoint
            || control_selector != SAMPLING_FREQ_CONTROL {
            return None;
        }
        let endpoint_address = endpoint_address(req.index);
        let (direction, slot, endpoint_format) = match self.endpoint_format(endpoint_address) {
            Some(found) => found,
            None => {
                return None;
            },
        };
        if buf_len < 3 {
            return Some((InResponse::Rejected, None));
        }
        let mut update: Option<RateUpdate> = None;
        let response: u32 = if req.request == GET_CUR {
            let mut current = match direction {
                StreamDirection::Playback => rates.playback[slot],
                StreamDirection::Capture => rates.capture[slot],
            };
            let before = current;
            let default = endpoint_format.default_rate();
            proof {
                if !format_rates(slot as int).contains(DEFAULT_RATE) {
                    assert(format_rates(slot as int).contains(SampleRate::R44100));
                    assert(rate_hz(format_rates(slot as int)[0]) == 44_100);
                }
            }
            let rate = get_or_configure_rate(&mut current, default);
            if before == EndpointRate::Unset {
                update = Some(RateUpdate { direction, slot, rate: current });
            }
            rate.hz()
        } else if req.request == GET_MIN {
            endpoint_format.min_rate().hz()
        } else if req.request == GET_MAX {
            endpoint_format.max_rate().hz()
        } else if req.request == GET_RES {
            1
        } else {
            return Some((InResponse::Rejected, None));
        };
        let out = u24_le_bytes(response);
        proof {
            assert(out =~= le24_bytes(response as int));
        }
        Some((InResponse::Accepted(out), update))
    }
}

} // verus!
