//! Spans of time as whole seconds and nanoseconds.

use vstd::prelude::*;

verus! {

/// A span of time.
#[derive(Debug, Clone, Copy, PartialEq, Eq, Structural)]
pub struct Duration {
    pub secs: u64,
    /// Below one second.
    pub nanos: u32,
}

impl Duration {
    pub open spec fn wf(self) -> bool {
        self.nanos < 1_000_000_000
    }

    /// The span in nanoseconds.
    pub open spec fn total_nanos(self) -> int {
        self.secs * 1_000_000_000 + self.nanos
    }

    pub fn from_millis(millis: u64) -> (r: Self)
        ensures
            r.wf(),
            r.total_nanos() == millis * 1_000_000,
            r.secs * 1_000 <= millis < (r.secs + 1) * 1_000,
            r.secs * 1_000_000_000 + r.nanos == millis * 1_000_000,
    {
        Duration { secs: millis / 1000, nanos: ((millis % 1000) * 1_000_000) as u32 }
    }

    pub fn is_zero(&self) -> (r: bool)
        ensures
            r == (self.total_nanos() == 0),
            r <==> self.secs == 0 && self.nanos == 0,
    {
        self.secs == 0 && self.nanos == 0
    }

    /// The whole milliseconds of the span.
    pub fn as_millis(&self) -> (r: u128)
        requires
            self.wf(),
        ensures
            r == self.total_nanos() / 1_000_000,
            r == self.secs * 1_000 + self.nanos / 1_000_000,
    {
        (self.secs as u128) * 1000 + (self.nanos as u128) / 1_000_000
    }
}

/// The whole milliseconds of `duration`, or the greatest `u64`.
pub fn duration_ms(duration: Duration) -> (r: u64)
    requires
        duration.wf(),
    ensures
        r == if duration.total_nanos() / 1_000_000 > u64::MAX {
            u64::MAX as int
        } else {
            duration.total_nanos() / 1_000_000
        },
{
    let millis: u128 = duration.as_millis();
    if millis > u64::MAX as u128 {
        u64::MAX
    } else {
        millis as u64
    }
}

} // verus!
