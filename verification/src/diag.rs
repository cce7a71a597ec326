//! Counters of the IN packets that had to be replaced by silence.

use vstd::prelude::*;

verus! {

#[derive(Clone, Copy, Debug, PartialEq, Eq, Structural)]
pub enum InFallbackReason {
    QueueEmpty,
    FormatMismatch,
}

pub open spec fn reason_code(reason: InFallbackReason) -> u32 {
    match reason {
        InFallbackReason::QueueEmpty => 1,
        InFallbackReason::FormatMismatch => 2,
    }
}

impl InFallbackReason {
    pub fn code(self) -> (c: u32)
        ensures
            c == reason_code(self),
    {
        match self {
            InFallbackReason::QueueEmpty => 1,
            InFallbackReason::FormatMismatch => 2,
        }
    }
}

/// The diagnostic counters: fallback packets and bytes, both counting
/// modulo 2^32, and the code of the last reason (0 before any fallback).
pub struct InFallbackCounters {
    pub packets: u32,
    pub bytes: u32,
    pub last_reason: u32,
}

impl InFallbackCounters {
    pub fn new() -> (c: Self)
        ensures
            c.packets == 0,
            c.bytes == 0,
            c.last_reason == 0,
    {
        InFallbackCounters { packets: 0, bytes: 0, last_reason: 0 }
    }
}

/// Adds one IN fallback packet of `len` bytes.
pub fn add_in_fallback(counters: &mut InFallbackCounters, reason: InFallbackReason, len: usize)
    requires
        len <= u32::MAX,
    ensures
        final(counters).packets == (old(counters).packets + 1) % 0x1_0000_0000,
        final(counters).bytes == (old(counters).bytes + len) % 0x1_0000_0000,
        final(counters).last_reason == reason_code(reason),
{
    counters.packets = counters.packets.wrapping_add(1);
    let len = len as u32;
    counters.bytes = counters.bytes.wrapping_add(len);
    counters.last_reason = reason.code();
}

pub fn in_fallback_packets(counters: &InFallbackCounters) -> (n: u32)
    ensures
        n == counters.packets,
{
    counters.packets
}

} // verus!
