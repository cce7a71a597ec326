//! Per-(format, rate) packet queues and the decisions of the OUT and IN
//! endpoint tasks.

use vstd::prelude::*;
use crate::audio::{SampleRate, rate_hz, cadence_step_frames, cadence_step_acc};
use crate::pcm::{
    self, FORMAT_COUNT, FORMAT_RATE_COUNT, PACKET_QUEUE_CAPACITY, is_advertised, is_queue_index,
    is_table_format, format_width, width_bytes, CHANNELS, audio_queue_index, format_by_endpoint_slot,
};

verus! {

#[verifier::external_type_specification]
#[verifier::external_body]
#[verifier::reject_recursive_types(T)]
pub struct ExHeaplessDeque<T, const N: usize>(heapless::Deque<T, N>);

#[verifier::external_type_specification]
#[verifier::external_body]
#[verifier::reject_recursive_types(T)]
pub struct ExHeaplessVec<T, const N: usize>(heapless::Vec<T, N>);

/// One USB audio payload, with room for the largest endpoint MPS.
pub type AudioPacket = heapless::Vec<u8, 582>;

/// The bytes a packet holds.
pub uninterp spec fn packet_bytes(p: heapless::Vec<u8, 582>) -> Seq<u8>;

/// The packets a queue holds, oldest first.
pub uninterp spec fn queued_packets(q: heapless::Deque<heapless::Vec<u8, 582>, 8>) -> Seq<Seq<u8>>;

/// `heapless::Vec::truncate`: keeps the first `len` bytes; a `len` at or past
/// the end leaves the packet as it is.
#[verifier::external_body]
fn packet_truncate(packet: &mut AudioPacket, len: usize)
    ensures
        len <= packet_bytes(*old(packet)).len() ==> packet_bytes(*final(packet)) == packet_bytes(*old(packet)).take(len as int),
        len > packet_bytes(*old(packet)).len() ==> packet_bytes(*final(packet)) == packet_bytes(*old(packet)),
{
    packet.truncate(len)
}

/// `heapless::Deque::new`: an empty queue.
#[verifier::external_body]
fn deque_new() -> (q: heapless::Deque<AudioPacket, 8>)
    ensures
        queued_packets(q) == Seq::<Seq<u8>>::empty(),
{
    heapless::Deque::new()
}

/// `heapless::Deque::push_back`: appends unless the queue already holds its
/// capacity of 8, in which case it hands the packet back untouched.
#[verifier::external_body]
fn deque_push_back(q: &mut heapless::Deque<AudioPacket, 8>, packet: AudioPacket) -> (r: Result<(), AudioPacket>)
    ensures
        queued_packets(*old(q)).len() < 8 ==> r is Ok && queued_packets(*final(q)) == queued_packets(*old(q)).push(packet_bytes(packet)),
        queued_packets(*old(q)).len() >= 8 ==> (r matches Err(p) && packet_bytes(p) == packet_bytes(packet)
            && queued_packets(*final(q)) == queued_packets(*old(q))),
        queued_packets(*final(q)).len() <= 8,
{
    q.push_back(packet)
}

/// `heapless::Deque::pop_front`: removes and returns the oldest packet.
#[verifier::external_body]
fn deque_pop_front(q: &mut heapless::Deque<AudioPacket, 8>) -> (r: Option<AudioPacket>)
    ensures
        queued_packets(*old(q)).len() == 0 ==> r is None && queued_packets(*final(q)) == queued_packets(*old(q)),
        queued_packets(*old(q)).len() > 0 ==> (r matches Some(p) && packet_bytes(p) == queued_packets(*old(q))[0]
            && queued_packets(*final(q)) == queued_packets(*old(q)).drop_first()),
        queued_packets(*final(q)).len() <= 8,
{
    q.pop_front()
}

/// `heapless::Deque::clear`: removes every packet.
#[verifier::external_body]
fn deque_clear(q: &mut heapless::Deque<AudioPacket, 8>)
    ensures
        queued_packets(*final(q)) == Seq::<Seq<u8>>::empty(),
{
    q.clear()
}

/// A packet's bytes cut to `len`; a `len` past the end keeps them all.
pub open spec fn truncated(bytes: Seq<u8>, len: int) -> Seq<u8> {
    if len <= bytes.len() {
        bytes.take(len)
    } else {
        bytes
    }
}

/// What a queue holds after a packet arrives: the packet is appended and,
/// when the queue was full, exactly the oldest packet is dropped.
pub open spec fn pushed(q: Seq<Seq<u8>>, p: Seq<u8>) -> Seq<Seq<u8>> {
    if q.len() < PACKET_QUEUE_CAPACITY {
        q.push(p)
    } else {
        q.drop_first().push(p)
    }
}

/// The newest `PACKET_QUEUE_CAPACITY` packets of a sequence of arrivals.
pub open spec fn newest(s: Seq<Seq<u8>>) -> Seq<Seq<u8>> {
    if s.len() <= PACKET_QUEUE_CAPACITY {
        s
    } else {
        s.subrange(s.len() - PACKET_QUEUE_CAPACITY, s.len() as int)
    }
}

/// Packets received in order, oldest first, into a queue holding `q`.
pub open spec fn pushed_all(q: Seq<Seq<u8>>, arrivals: Seq<Seq<u8>>) -> Seq<Seq<u8>>
    decreases arrivals.len(),
{
    if arrivals.len() == 0 {
        q
    } else {
        pushed(pushed_all(q, arrivals.drop_last()), arrivals.last())
    }
}

/// A queue keeps exactly the newest packets: whatever arrives, it holds the
/// last `PACKET_QUEUE_CAPACITY` packets of everything it held and received,
/// in arrival order.
pub proof fn lemma_queue_keeps_newest_packets(q: Seq<Seq<u8>>, arrivals: Seq<Seq<u8>>)
    requires
        q.len() <= PACKET_QUEUE_CAPACITY,
    ensures
        pushed_all(q, arrivals) == newest(q + arrivals),
    decreases arrivals.len(),
{
    if arrivals.len() > 0 {
        let init = arrivals.drop_last();
        lemma_queue_keeps_newest_packets(q, init);
        let before = q + init;
        assert(q + arrivals =~= before.push(arrivals.last()));
        assert(pushed(newest(before), arrivals.last()) =~= newest(before.push(arrivals.last())));
    }
}

/// A bounded FIFO of packets for one (format, rate) combination, with a
/// sticky flag that records that a full queue dropped a packet.
pub struct AudioQueue {
    packets: heapless::Deque<AudioPacket, 8>,
    overflowed: bool,
}

impl View for AudioQueue {
    type V = Seq<Seq<u8>>;

    closed spec fn view(&self) -> Seq<Seq<u8>> {
        queued_packets(self.packets)
    }
}

impl AudioQueue {
    #[verifier::type_invariant]
    spec fn within_capacity(self) -> bool {
        queued_packets(self.packets).len() <= PACKET_QUEUE_CAPACITY
    }

    /// Whether a packet was dropped since the flag was last taken or the
    /// queue last cleared.
    pub closed spec fn spec_overflowed(&self) -> bool {
        self.overflowed
    }

    pub fn new() -> (q: Self)
        ensures
            q@ == Seq::<Seq<u8>>::empty(),
            !q.spec_overflowed(),
    {
        AudioQueue { packets: deque_new(), overflowed: false }
    }

    /// Queues a packet. Isochronous OUT cannot be retried, so a full queue
    /// drops its oldest packet to make room and raises the overflow flag.
    pub fn push(&mut self, packet: AudioPacket)
        ensures
            final(self)@ == pushed(old(self)@, packet_bytes(packet)),
            final(self).spec_overflowed() == (old(self).spec_overflowed() || old(self)@.len() >= PACKET_QUEUE_CAPACITY),
            old(self)@.len() <= PACKET_QUEUE_CAPACITY,
    {
        proof {
            use_type_invariant(&*self);
        }
        let mut packets = deque_new();
        core::mem::swap(&mut packets, &mut self.packets);
        match deque_push_back(&mut packets, packet) {
            Ok(()) => {},
            Err(packet) => {
                let dropped = deque_pop_front(&mut packets);
                assert(dropped is Some);
                let again = deque_push_back(&mut packets, packet);
                assert(again is Ok);
                self.overflowed = true;
            },
        }
        self.packets = packets;
    }

    pub fn pop(&mut self) -> (r: Option<AudioPacket>)
        ensures
            old(self)@.len() == 0 ==> r is None && final(self)@ == old(self)@,
            old(self)@.len() > 0 ==> (r matches Some(p) && packet_bytes(p) == old(self)@[0] && final(self)@
                == old(self)@.drop_first()),
            final(self).spec_overflowed() == old(self).spec_overflowed(),
    {
        proof {
            use_type_invariant(&*self);
        }
        let mut packets = deque_new();
        core::mem::swap(&mut packets, &mut self.packets);
        let r = deque_pop_front(&mut packets);
        self.packets = packets;
        r
    }

    /// Reads and lowers the overflow flag; the packets stay queued.
    pub fn take_overflow(&mut self) -> (lost: bool)
        ensures
            lost == old(self).spec_overflowed(),
            !final(self).spec_overflowed(),
            final(self)@ == old(self)@,
    {
        proof {
            use_type_invariant(&*self);
        }
        let lost = self.overflowed;
        self.overflowed = false;
        lost
    }

    /// Empties the queue and lowers its overflow flag, so drops that happened
    /// before are not reported later.
    pub fn clear(&mut self)
        ensures
            final(self)@ == Seq::<Seq<u8>>::empty(),
            !final(self).spec_overflowed(),
    {
        let mut packets = deque_new();
        core::mem::swap(&mut packets, &mut self.packets);
        self.overflowed = false;
        deque_clear(&mut packets);
        self.packets = packets;
    }
}


/// The packet queues of all advertised (format, rate) combinations, in
/// `audio_queue_index` order.
pub struct AudioQueues {
    queues: Vec<AudioQueue>,
}

impl View for AudioQueues {
    type V = Seq<Seq<Seq<u8>>>;

    closed spec fn view(&self) -> Seq<Seq<Seq<u8>>> {
        Seq::new(self.queues@.len(), |i: int| self.queues@[i]@)
    }
}

impl AudioQueues {
    /// One queue per advertised combination.
    pub closed spec fn wf(&self) -> bool {
        self.queues@.len() == FORMAT_RATE_COUNT
    }

    /// The overflow flag of every queue.
    pub closed spec fn overflows(&self) -> Seq<bool> {
        Seq::new(self.queues@.len(), |i: int| self.queues@[i].spec_overflowed())
    }

    /// Queues the first `len` bytes of a received packet in queue `index`;
    /// a full queue drops its oldest packet and records the drop.
    pub fn push_packet(&mut self, index: usize, packet: AudioPacket, len: usize)
        requires
            old(self).wf(),
            index < FORMAT_RATE_COUNT,
        ensures
            final(self).wf(),
            final(self)@ == old(self)@.update(index as int, pushed(old(self)@[index as int], truncated(packet_bytes(packet), len as int))),
            final(self).overflows() == old(self).overflows().update(
                index as int,
                old(self).overflows()[index as int] || old(self)@[index as int].len() >= PACKET_QUEUE_CAPACITY,
            ),
    {
        let ghost received = packet_bytes(packet);
        let mut packet = packet;
        packet_truncate(&mut packet, len);
        self.queues[index].push(packet);
        proof {
            assert(self@ =~= old(self)@.update(index as int, pushed(old(self)@[index as int], truncated(received, len as int))));
            assert(self.overflows() =~= old(self).overflows().update(
                index as int,
                old(self).overflows()[index as int] || old(self)@[index as int].len() >= PACKET_QUEUE_CAPACITY,
            ));
        }
    }
}

impl AudioQueues {
    /// Removes the oldest packet of queue `index`.
    pub fn pop_packet(&mut self, index: usize) -> (r: Option<AudioPacket>)
        requires
            old(self).wf(),
            index < FORMAT_RATE_COUNT,
        ensures
            final(self).wf(),
            old(self)@[index as int].len() == 0 ==> r is None && final(self)@ == old(self)@,
            old(self)@[index as int].len() > 0 ==> (r matches Some(p) && packet_bytes(p) == old(self)@[index as int][0]
                && final(self)@ == old(self)@.update(index as int, old(self)@[index as int].drop_first())),
            final(self).overflows() == old(self).overflows(),
    {
        let r = self.queues[index].pop();
        proof {
            if old(self)@[index as int].len() == 0 {
                assert(self@ =~= old(self)@);
            } else {
                assert(self@ =~= old(self)@.update(index as int, old(self)@[index as int].drop_first()));
            }
            assert(self.overflows() =~= old(self).overflows());
        }
        r
    }

    /// Reads and lowers the overflow flag of queue `index`.
    pub fn take_overflow(&mut self, index: usize) -> (lost: bool)
        requires
            old(self).wf(),
            index < FORMAT_RATE_COUNT,
        ensures
            final(self).wf(),
            lost == old(self).overflows()[index as int],
            final(self).overflows() == old(self).overflows().update(index as int, false),
            final(self)@ == old(self)@,
    {
        let lost = self.queues[index].take_overflow();
        proof {
            assert(self@ =~= old(self)@);
            assert(self.overflows() =~= old(self).overflows().update(index as int, false));
        }
        lost
    }

    /// Empties queue `index` and lowers its flag; the other queues keep their
    /// packets and flags.
    pub fn clear_queue(&mut self, index: usize)
        requires
            old(self).wf(),
            index < FORMAT_RATE_COUNT,
        ensures
            final(self).wf(),
            final(self)@ == old(self)@.update(index as int, Seq::<Seq<u8>>::empty()),
            final(self).overflows() == old(self).overflows().update(index as int, false),
    {
        self.queues[index].clear();
        proof {
            assert(self@ =~= old(self)@.update(index as int, Seq::<Seq<u8>>::empty()));
            assert(self.overflows() =~= old(self).overflows().update(index as int, false));
        }
    }
}

pub fn init_audio_queues() -> (q: AudioQueues)
    ensures
        q.wf(),
        forall|i: int| 0 <= i < FORMAT_RATE_COUNT ==> (#[trigger] q@[i]).len() == 0,
        forall|i: int| 0 <= i < FORMAT_RATE_COUNT ==> !#[trigger] q.overflows()[i],
{
    let mut queues: Vec<AudioQueue> = Vec::new();
    let mut i: usize = 0;
    while i < FORMAT_RATE_COUNT
        invariant
            i <= FORMAT_RATE_COUNT,
            queues@.len() == i,
            forall|j: int| 0 <= j < i ==> (#[trigger] queues@[j])@.len() == 0,
            forall|j: int| 0 <= j < i ==> !(#[trigger] queues@[j]).spec_overflowed(),
        decreases FORMAT_RATE_COUNT - i,
    {
        queues.push(AudioQueue::new());
        i += 1;
    }
    AudioQueues { queues }
}


/// The rate configured on one physical endpoint.
#[derive(Clone, Copy, Debug, PartialEq, Eq, Structural)]
pub enum EndpointRate {
    Unset,
    Configured(SampleRate),
}

/// Bytes of one audio frame of the format in table slot `slot`.
pub open spec fn slot_frame_bytes(slot: int) -> int {
    CHANNELS * width_bytes(format_width(slot))
}

/// The queue of (format `slot`, `rate`), when the format advertises the rate.
pub open spec fn queue_of(slot: int, rate: SampleRate) -> Option<int> {
    if is_advertised(slot, rate) {
        Some(choose|i: int| is_queue_index(slot, rate, i))
    } else {
        None
    }
}

proof fn lemma_queue_of(slot: int, rate: SampleRate, i: int)
    requires
        is_advertised(slot, rate),
        is_queue_index(slot, rate, i),
    ensures
        queue_of(slot, rate) == Some(i),
        0 <= i < FORMAT_RATE_COUNT,
{
    pcm::lemma_queue_index_is_bijective();
    let j = choose|j: int| is_queue_index(slot, rate, j);
    assert(is_queue_index(slot, rate, j));
}

/// The queue a task of format `format_slot` uses at `rate`, if any.
pub fn audio_queue(queues: &AudioQueues, format_slot: usize, rate: SampleRate) -> (r: Option<&AudioQueue>)
    requires
        queues.wf(),
    ensures
        match queue_of(format_slot as int, rate) {
            Some(i) => r matches Some(q) && q@ == queues@[i],
            None => r is None,
        },
{
    match audio_queue_index(format_slot, rate) {
        Some(index) => {
            proof {
                lemma_queue_of(format_slot as int, rate, index as int);
            }
            Some(&queues.queues[index])
        },
        None => None,
    }
}

/// What an OUT task does with a payload of `len` bytes just read: it is
/// queued for the endpoint's current rate when it is a nonempty whole number
/// of audio frames and the endpoint has a rate configured; otherwise it is
/// dropped. Returns the queue it went to.
pub fn playback_deliver(
    queues: &mut AudioQueues,
    slot: usize,
    current: Option<EndpointRate>,
    packet: AudioPacket,
    len: usize,
) -> (delivered: Option<usize>)
    requires
        old(queues).wf(),
        slot < FORMAT_COUNT,
    ensures
        final(queues).wf(),
        ({
            let accepted = len != 0 && (len as int) % slot_frame_bytes(slot as int) == 0;
            match (accepted, current) {
                (true, Some(EndpointRate::Configured(rate))) => match queue_of(slot as int, rate) {
                    Some(i) => {
                        &&& delivered == Some(i as usize)
                        &&& final(queues)@ == old(queues)@.update(
                            i,
                            pushed(old(queues)@[i], truncated(packet_bytes(packet), len as int)),
                        )
                        &&& final(queues).overflows() == old(queues).overflows().update(
                            i,
                            old(queues).overflows()[i] || old(queues)@[i].len() >= PACKET_QUEUE_CAPACITY,
                        )
                    },
                    None => delivered is None && final(queues)@ == old(queues)@ && final(queues).overflows() == old(queues).overflows(),
                },
                _ => delivered is None && final(queues)@ == old(queues)@ && final(queues).overflows() == old(queues).overflows(),
            }
        }),
{
    let format = match format_by_endpoint_slot(slot) {
        Some(f) => f,
        None => {
            return None;
        },
    };
    let frame_bytes = format.audio_frame_bytes();
    if len == 0 || len % frame_bytes != 0 {
        return None;
    }
    let rate = match current {
        Some(EndpointRate::Configured(rate)) => rate,
        _ => {
            return None;
        },
    };
    match audio_queue_index(slot, rate) {
        Some(index) => {
            proof {
                lemma_queue_of(slot as int, rate, index as int);
            }
            queues.push_packet(index, packet, len);
            Some(index)
        },
        None => None,
    }
}

/// Counts out generated silence for an IN endpoint at the format's rate;
/// see `crate::audio::PacketClock`.
pub struct PacketClock {
    rate: SampleRate,
    frame_bytes: usize,
    accumulator: u32,
}

impl PacketClock {
    #[verifier::type_invariant]
    spec fn accumulator_below_one_millisecond(self) -> bool {
        self.accumulator < 1000
    }

    pub closed spec fn spec_rate(self) -> SampleRate {
        self.rate
    }

    pub closed spec fn spec_frame_bytes(self) -> usize {
        self.frame_bytes
    }

    pub closed spec fn spec_accumulator(self) -> u32 {
        self.accumulator
    }

    pub open spec fn start_accumulator(self, rate: SampleRate, frame_bytes: usize) -> int {
        if self.spec_rate() == rate && self.spec_frame_bytes() == frame_bytes {
            self.spec_accumulator() as int
        } else {
            0
        }
    }

    pub fn new() -> (c: Self)
        ensures
            c.spec_rate() == SampleRate::R48000,
            c.spec_frame_bytes() == 0,
            c.spec_accumulator() == 0,
    {
        PacketClock { rate: crate::pcm::DEFAULT_RATE, frame_bytes: 0, accumulator: 0 }
    }

    /// Forgets the fraction accumulated so far, so the next packet starts a
    /// fresh cadence.
    pub fn reset(&mut self)
        ensures
            final(self).spec_rate() == old(self).spec_rate(),
            final(self).spec_frame_bytes() == 0,
            final(self).spec_accumulator() == 0,
    {
        proof {
            use_type_invariant(&*self);
        }
        self.frame_bytes = 0;
        self.accumulator = 0;
    }

    pub fn next_len(&mut self, rate: SampleRate, frame_bytes: usize) -> (len: usize)
        requires
            cadence_step_frames(old(self).start_accumulator(rate, frame_bytes), rate_hz(rate) as int) * frame_bytes
                <= usize::MAX,
        ensures
            len == cadence_step_frames(old(self).start_accumulator(rate, frame_bytes), rate_hz(rate) as int)
                * frame_bytes,
            final(self).spec_accumulator() == cadence_step_acc(
                old(self).start_accumulator(rate, frame_bytes),
                rate_hz(rate) as int,
            ),
            final(self).spec_rate() == rate,
            final(self).spec_frame_bytes() == frame_bytes,
    {
        proof {
            use_type_invariant(&*self);
        }
        let start: u32 = if self.rate != rate || self.frame_bytes != frame_bytes {
            0
        } else {
            self.accumulator
        };
        let total: u32 = start + rate.hz();
        let frames: u32 = total / 1_000;
        let remainder: u32 = total % 1_000;
        self.rate = rate;
        self.frame_bytes = frame_bytes;
        self.accumulator = remainder;
        frames as usize * frame_bytes
    }
}

/// What an IN endpoint sends next.
pub enum CaptureWrite {
    /// A queued OUT payload, unchanged.
    Packet(AudioPacket),
    /// Digital silence of this many bytes, because the queue is empty.
    Silence(usize),
    /// A zero-length packet, because the endpoint has no rate configured.
    ZeroLength,
}

/// A rate that the capture endpoint of `slot` may hold: unset, or one the
/// format advertises (the control handler refuses every other rate).
pub open spec fn valid_endpoint_rate(slot: int, rate: EndpointRate) -> bool {
    match rate {
        EndpointRate::Unset => true,
        EndpointRate::Configured(r) => is_advertised(slot, r),
    }
}

/// Applies a new rate for an IN endpoint: the silence cadence restarts and
/// the queue of the new (format, rate) is emptied, so the stream resumes
/// from packets received after the change. Other queues are kept.
pub fn apply_capture_rate(queues: &mut AudioQueues, format_slot: usize, rate: EndpointRate, clock: &mut PacketClock)
    requires
        old(queues).wf(),
        format_slot < FORMAT_COUNT,
        valid_endpoint_rate(format_slot as int, rate),
    ensures
        final(queues).wf(),
        final(clock).spec_frame_bytes() == 0,
        final(clock).spec_accumulator() == 0,
        final(clock).spec_rate() == old(clock).spec_rate(),
        match rate {
            EndpointRate::Unset => final(queues)@ == old(queues)@ && final(queues).overflows() == old(queues).overflows(),
            EndpointRate::Configured(r) => queue_of(format_slot as int, r) matches Some(i)
                && final(queues)@ == old(queues)@.update(i, Seq::<Seq<u8>>::empty())
                && final(queues).overflows() == old(queues).overflows().update(i, false),
        },
{
    clock.reset();
    if let EndpointRate::Configured(rate) = rate {
        match audio_queue_index(format_slot, rate) {
            Some(index) => {
                proof {
                    lemma_queue_of(format_slot as int, rate, index as int);
                }
                queues.clear_queue(index);
            },
            None => {},
        }
    }
}

/// One IN transfer: the oldest queued payload for the endpoint's rate if
/// there is one, else silence sized by the packet clock, or a zero-length
/// packet while the endpoint has no rate. Reading a queue also takes its
/// overflow flag: the second result says whether packets of that queue were
/// dropped since it was last read or cleared.
pub fn capture_next(queues: &mut AudioQueues, slot: usize, rate: EndpointRate, clock: &mut PacketClock) -> (w: (CaptureWrite, bool))
    requires
        old(queues).wf(),
        slot < FORMAT_COUNT,
        valid_endpoint_rate(slot as int, rate),
    ensures
        final(queues).wf(),
        match rate {
            EndpointRate::Unset => {
                &&& w.0 is ZeroLength
                &&& !w.1
                &&& final(queues)@ == old(queues)@
                &&& final(queues).overflows() == old(queues).overflows()
                &&& *final(clock) == *old(clock)
            },
            EndpointRate::Configured(r) => queue_of(slot as int, r) matches Some(i) && {
                &&& w.1 == old(queues).overflows()[i]
                &&& final(queues).overflows() == old(queues).overflows().update(i, false)
                &&& if old(queues)@[i].len() > 0 {
                    &&& w.0 matches CaptureWrite::Packet(p) && packet_bytes(p) == old(queues)@[i][0]
                    &&& final(queues)@ == old(queues)@.update(i, old(queues)@[i].drop_first())
                    &&& *final(clock) == *old(clock)
                } else {
                    let start = old(clock).start_accumulator(r, slot_frame_bytes(slot as int) as usize);
                    &&& w.0 matches CaptureWrite::Silence(len) && len == cadence_step_frames(start, rate_hz(r) as int)
                        * slot_frame_bytes(slot as int)
                    &&& final(queues)@ == old(queues)@
                    &&& final(clock).spec_rate() == r
                    &&& final(clock).spec_frame_bytes() == slot_frame_bytes(slot as int)
                    &&& final(clock).spec_accumulator() == cadence_step_acc(start, rate_hz(r) as int)
                }
            },
        },
{
    let format = match format_by_endpoint_slot(slot) {
        Some(f) => f,
        None => {
            return (CaptureWrite::ZeroLength, false);
        },
    };
    if let EndpointRate::Configured(rate) = rate {
        let index = match audio_queue_index(slot, rate) {
            Some(index) => index,
            None => {
                return (CaptureWrite::ZeroLength, false);
            },
        };
        proof {
            lemma_queue_of(slot as int, rate, index as int);
        }
        let lost = queues.take_overflow(index);
        if let Some(packet) = queues.pop_packet(index) {
            return (CaptureWrite::Packet(packet), lost);
        }
        let frame_bytes = format.audio_frame_bytes();
        proof {
            use_type_invariant(&*clock);
            assert(cadence_step_frames(clock.start_accumulator(rate, frame_bytes), rate_hz(rate) as int) <= 97);
            assert(cadence_step_frames(clock.start_accumulator(rate, frame_bytes), rate_hz(rate) as int) * frame_bytes <= 97 * 8) by (nonlinear_arith)
                requires
                    cadence_step_frames(clock.start_accumulator(rate, frame_bytes), rate_hz(rate) as int) <= 97,
                    0 <= cadence_step_frames(clock.start_accumulator(rate, frame_bytes), rate_hz(rate) as int),
                    frame_bytes <= 8,
            ;
        }
        let len = clock.next_len(rate, frame_bytes);
        (CaptureWrite::Silence(len), lost)
    } else {
        (CaptureWrite::ZeroLength, false)
    }
}

} // verus!
