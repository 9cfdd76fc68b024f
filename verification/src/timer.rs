//! The timer: reading the 64-bit counter in two halves and working out
//! when the next tick is due.

use vstd::prelude::*;

verus! {

/// Ticks of the counter in one millisecond (the counter runs at 10 MHz).
pub const TICKS_PER_MS: u64 = 10_000;
/// Milliseconds a process runs before the timer interrupts it.
pub const QUANTUM_MS: u64 = 500;

pub struct Timer;

/// Ticks of the counter in `millisecs` milliseconds.
pub fn millisecs_to_ticks(millisecs: u64) -> (ticks: u64)
    requires
        millisecs * 10_000 <= u64::MAX,
    ensures
        ticks == millisecs * 10_000,
{
    millisecs * TICKS_PER_MS
}

/// Puts together one reading of the counter from its two halves. The high
/// half is read before and after the low half; where the two readings of
/// it differ, the low half has wrapped around in between and the reading
/// is to be taken again.
pub fn get_timer(ticks_high: u32, ticks_low: u32, ticks_high_check: u32) -> (r: Option<u64>)
    ensures
        ticks_high != ticks_high_check ==> r is None,
        ticks_high == ticks_high_check ==> r == Some(
            (ticks_high as int * 0x1_0000_0000 + ticks_low as int) as u64,
        ),
{
    if ticks_high_check == ticks_high {
        let high: u64 = ticks_high as u64;
        let low: u64 = ticks_low as u64;
        assert((high << 32u64) | low == high * 0x1_0000_0000u64 + low) by (bit_vector)
            requires
                high <= 0xffff_ffffu64,
                low <= 0xffff_ffffu64,
        ;
        Some((high << 32) | low)
    } else {
        None
    }
}

impl Timer {
    /// The counter value at which the timer is to fire so that it does so
    /// `millisecs` milliseconds after the counter stood at `now`.
    pub fn set(&self, now: u64, millisecs: u64) -> (deadline: u64)
        requires
            now + millisecs * 10_000 <= u64::MAX,
        ensures
            deadline == now + millisecs * 10_000,
    {
        let ticks: u64 = millisecs_to_ticks(millisecs);
        now + ticks
    }

    /// Tells whether `set(now, millisecs)` may be called: whether the
    /// deadline can still be told in 64 bits.
    pub fn can_set(&self, now: u64, millisecs: u64) -> (r: bool)
        ensures
            r == (now + millisecs * 10_000 <= u64::MAX),
    {
        millisecs <= (u64::MAX - now) / TICKS_PER_MS
    }
}

} // verus!
