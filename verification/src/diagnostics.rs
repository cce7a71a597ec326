//! The loss LED: it lights while loopback audio keeps being lost (IN sends
//! silence, or a full queue drops packets) and for a fixed number of polls
//! after the last loss.

use vstd::prelude::*;

verus! {

/// Number of losses recorded (IN silence packets sent, and reports of
/// packets dropped by a full queue), counting modulo 2^32.
pub struct SilenceCounter {
    pub packets: u32,
}

impl SilenceCounter {
    pub fn new() -> (c: Self)
        ensures
            c.packets == 0,
    {
        SilenceCounter { packets: 0 }
    }
}

pub fn record_in_silence(counter: &mut SilenceCounter)
    ensures
        final(counter).packets == (old(counter).packets + 1) % 0x1_0000_0000,
{
    counter.packets = counter.packets.wrapping_add(1);
}

pub fn in_silence_packets(counter: &SilenceCounter) -> (n: u32)
    ensures
        n == counter.packets,
{
    counter.packets
}

/// Number of 10 ms polls the LED stays lit after the last recorded loss.
pub const HOLD_TICKS: u16 = 100;

/// Decides, once per poll, whether the LED is lit.
pub struct LedHold {
    pub last_seen: u32,
    pub remaining_ticks: u16,
    pub hold_ticks: u16,
}

/// One poll: a changed count lights the LED and restarts the hold; an
/// unchanged count keeps it lit while the hold lasts.
pub open spec fn led_step(h: LedHold, current_count: u32) -> (LedHold, bool) {
    if current_count != h.last_seen {
        (LedHold { last_seen: current_count, remaining_ticks: h.hold_ticks, ..h }, true)
    } else if h.remaining_ticks == 0 {
        (h, false)
    } else {
        (
            LedHold { remaining_ticks: (h.remaining_ticks - 1) as u16, ..h },
            h.remaining_ticks - 1 != 0,
        )
    }
}

/// The hold after `k` polls that all see the unchanged count `c`.
pub open spec fn led_quiet_polls(h: LedHold, c: u32, k: nat) -> LedHold
    decreases k,
{
    if k == 0 {
        h
    } else {
        led_step(led_quiet_polls(h, c, (k - 1) as nat), c).0
    }
}

impl LedHold {
    pub fn new(initial_count: u32, hold_ticks: u16) -> (h: Self)
        ensures
            h.last_seen == initial_count,
            h.remaining_ticks == 0,
            h.hold_ticks == hold_ticks,
    {
        LedHold { last_seen: initial_count, remaining_ticks: 0, hold_ticks }
    }

    pub fn step(&mut self, current_count: u32) -> (lit: bool)
        ensures
            (*final(self), lit) == led_step(*old(self), current_count),
    {
        if current_count != self.last_seen {
            self.last_seen = current_count;
            self.remaining_ticks = self.hold_ticks;
            return true;
        }
        if self.remaining_ticks == 0 {
            return false;
        }
        self.remaining_ticks -= 1;
        self.remaining_ticks != 0
    }
}

/// After new activity the LED stays lit from the latest activity on: of the
/// polls that follow with no new activity, the first `hold_ticks - 1` keep it
/// lit and every later one leaves it dark.
pub proof fn lemma_led_hold_extends_from_latest_activity(h: LedHold, c: u32, k: nat)
    requires
        c != h.last_seen,
        h.hold_ticks > 0,
    ensures
        ({
            let lit = led_step(h, c).0;
            let before = led_quiet_polls(lit, c, k);
            &&& before.remaining_ticks == if k <= h.hold_ticks { h.hold_ticks - k } else { 0 }
            &&& led_step(before, c).1 == (k + 1 < h.hold_ticks)
        }),
    decreases k,
{
    if k > 0 {
        lemma_led_hold_extends_from_latest_activity(h, c, (k - 1) as nat);
    }
}

} // verus!
