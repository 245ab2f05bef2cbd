//! Simple timer structs and operations.
//!
//! The board's free-running microsecond counter is read by the outside
//! world; these operations take its current reading as a plain value and
//! decide expiry with the same wraparound arithmetic the hardware counter
//! forces, so a timer keeps working across the counter rolling over.

use vstd::prelude::*;

verus! {

/// Microseconds the counter advances per millisecond.
pub const TICKS_PER_MS: u32 = 1000;

/// Microseconds counted from `start` to `now`, wraparound included.
pub open spec fn spec_elapsed(start: u32, now: u32) -> int {
    (now - start) % 0x1_0000_0000
}

/// Returns whether at least `ms` milliseconds have passed on the counter
/// between the readings `start` and `now`: the decision a delay loop spins
/// on until it holds.
pub fn delay_done(start: u32, now: u32, ms: u32) -> (r: bool)
    requires
        ms * TICKS_PER_MS <= u32::MAX,
    ensures
        r == (spec_elapsed(start, now) >= ms * TICKS_PER_MS),
{
    now.wrapping_sub(start) >= ms * TICKS_PER_MS
}

/// A simple system timer object: the counter reading at which it expires.
pub struct Timer {
    pub stop_time: u32,
}

impl Timer {
    /// Returns a timer that expires `ms` milliseconds after the counter
    /// reading `now`.
    pub fn timer(now: u32, ms: u32) -> (t: Timer)
        requires
            ms * TICKS_PER_MS <= u32::MAX,
        ensures
            t.stop_time == (now + ms * TICKS_PER_MS) % 0x1_0000_0000,
    {
        Timer { stop_time: now.wrapping_add(ms * 1000) }
    }

    /// Returns whether the timer has expired at the counter reading `now`:
    /// true once the stop time is now or behind, within half the counter's
    /// range — the signed-difference convention every wrapping timer uses.
    pub fn done(&self, now: u32) -> (r: bool)
        ensures
            ({
                let d = (self.stop_time - now) % 0x1_0000_0000;
                r == (d == 0 || d >= 0x8000_0000)
            }),
    {
        let d = self.stop_time.wrapping_sub(now);
        d == 0 || d >= 0x8000_0000
    }
}

} // verus!
