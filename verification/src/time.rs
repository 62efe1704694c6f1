//! Spans of time.
use vstd::prelude::*;

verus! {

/// Nanoseconds in a second.
pub const NANOS_PER_SEC: u128 = 1_000_000_000;

/// A span of time: `secs` seconds and `nanos` nanoseconds.
#[derive(Debug, Clone, Copy, PartialEq, Eq)]
pub struct Duration {
    pub secs: u64,
    pub nanos: u32,
}

impl Duration {
    /// A span of whole seconds.
    pub fn from_secs(secs: u64) -> (span: Duration)
        ensures
            span == (Duration { secs, nanos: 0 }),
    {
        Duration { secs, nanos: 0 }
    }

    /// The length of the span in nanoseconds.
    pub open spec fn total_nanos(self) -> nat {
        (self.secs * NANOS_PER_SEC + self.nanos) as nat
    }

    /// The length of the span in nanoseconds.
    pub fn as_nanos(&self) -> (nanos: u128)
        ensures
            nanos == self.total_nanos(),
    {
        self.secs as u128 * NANOS_PER_SEC + self.nanos as u128
    }
}

/// A span of whole seconds is as long as it says: each second takes a billion nanoseconds more, and
/// each nanosecond one more.
pub proof fn law_spans_add_up(secs: u64, whole: Duration, nanos: u128, other: Duration, all: u128)
    requires
        call_ensures(Duration::from_secs, (secs,), whole),
        call_ensures(Duration::as_nanos, (&whole,), nanos),
        call_ensures(Duration::as_nanos, (&other,), all),
    ensures
        nanos == secs * 1_000_000_000,
        other.secs == secs ==> all == nanos + other.nanos,
        whole.nanos == 0,
{
}

} // verus!
