//! Spans of time, kept as plain values: whole seconds and the nanoseconds
//! below one second, the two parts a `std::time::Duration` is made of.
//! Callers holding a `Duration` pass `TimeSpan::from_parts(d.as_secs(),
//! d.subsec_nanos())`.

use vstd::prelude::*;

verus! {

/// A span of time: whole seconds and the nanoseconds below one second.
#[derive(Debug, Clone, Copy, PartialEq, Eq, Structural)]
pub struct TimeSpan {
    secs: u64,
    nanos: u32,
}

impl TimeSpan {
    /// The nanoseconds stay below one second.
    #[verifier::type_invariant]
    spec fn nanos_below_one_second(&self) -> bool {
        self.nanos < 1_000_000_000
    }

    /// The whole seconds.
    pub closed spec fn secs_view(&self) -> u64 {
        self.secs
    }

    /// The nanoseconds below one second.
    pub closed spec fn nanos_view(&self) -> u32 {
        self.nanos
    }

    /// The whole milliseconds the span holds (what `Duration::as_millis` gives).
    pub open spec fn whole_millis(&self) -> u128 {
        (self.secs_view() * 1000 + self.nanos_view() / 1_000_000) as u128
    }

    /// A span of `secs` seconds.
    pub fn from_secs(secs: u64) -> (r: TimeSpan)
        ensures
            r.secs_view() == secs,
            r.nanos_view() == 0,
    {
        TimeSpan { secs, nanos: 0 }
    }

    /// A span of `millis` milliseconds.
    pub fn from_millis(millis: u64) -> (r: TimeSpan)
        ensures
            r.secs_view() == millis / 1000,
            r.nanos_view() == (millis % 1000) * 1_000_000,
            r.whole_millis() == millis,
    {
        let rest: u32 = (millis % 1000) as u32;
        TimeSpan { secs: millis / 1000, nanos: rest * 1_000_000 }
    }

    /// A span of `secs` seconds and `nanos` nanoseconds, `nanos` below one second.
    pub fn from_parts(secs: u64, nanos: u32) -> (r: TimeSpan)
        requires
            nanos < 1_000_000_000,
        ensures
            r.secs_view() == secs,
            r.nanos_view() == nanos,
    {
        TimeSpan { secs, nanos }
    }

    /// The whole seconds.
    pub fn as_secs(&self) -> (r: u64)
        ensures
            r == self.secs_view(),
    {
        self.secs
    }

    /// The nanoseconds below one second.
    pub fn subsec_nanos(&self) -> (r: u32)
        ensures
            r == self.nanos_view(),
            r < 1_000_000_000,
    {
        proof {
            use_type_invariant(self);
        }
        self.nanos
    }

    /// The whole milliseconds.
    pub fn as_millis(&self) -> (r: u128)
        ensures
            r == self.whole_millis(),
    {
        (self.secs as u128) * 1000 + (self.nanos / 1_000_000) as u128
    }
}

} // verus!
