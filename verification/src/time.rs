use vstd::prelude::*;

verus! {

/// Registration marker for the time subsystem. The per-architecture read
/// of the hardware tick counter lives outside the verified core; the core
/// receives counter values as plain numbers.
pub struct TimePlugin;

/// The monotonic time source: the hardware tick counter's value captured
/// once at startup. The counter wraps on overflow; a wrapped reading is a
/// documented limitation, not handled here.
pub struct Time {
    pub start_ticks: u64,
}

impl Time {
    /// Capture the startup instant from the given counter reading.
    pub fn new(start_ticks: u64) -> (t: Time)
        ensures
            t.start_ticks == start_ticks,
    {
        Time { start_ticks }
    }

    /// Ticks elapsed between startup and the given reading of the same
    /// monotonic counter.
    pub fn elapsed_ticks(&self, now_ticks: u64) -> (r: u64)
        requires
            self.start_ticks <= now_ticks,
        ensures
            r == now_ticks - self.start_ticks,
    {
        now_ticks - self.start_ticks
    }
}

} // verus!
