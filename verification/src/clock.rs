//! Time values and the trusted boundary to the process clock.
//!
//! All verified logic in this crate works on plain `u64` nanosecond counts.
//! The only places a real clock is consulted are the two trusted functions
//! below; everything downstream of them takes the observed instant as an
//! ordinary value.

use vstd::prelude::*;

verus! {

/// A span of time, in seconds plus a sub-second nanosecond remainder.
#[derive(Clone, Copy, PartialEq, Eq, Structural, Debug)]
pub struct Duration {
    pub secs: u64,
    pub nanos: u32,
}

/// The total length of a `Duration` in nanoseconds, as a mathematical integer.
pub open spec fn dur_nanos(d: Duration) -> int {
    d.secs * 1_000_000_000 + d.nanos
}

impl Duration {
    pub fn from_secs(secs: u64) -> (r: Duration)
        ensures
            dur_nanos(r) == secs * 1_000_000_000,
    {
        Duration { secs, nanos: 0 }
    }

    pub fn from_millis(millis: u64) -> (r: Duration)
        ensures
            dur_nanos(r) == millis * 1_000_000,
    {
        Duration { secs: millis / 1000, nanos: (millis % 1000) as u32 * 1_000_000 }
    }

    pub fn from_nanos(nanos: u64) -> (r: Duration)
        ensures
            dur_nanos(r) == nanos,
    {
        Duration { secs: nanos / 1_000_000_000, nanos: (nanos % 1_000_000_000) as u32 }
    }

    /// The total nanosecond count, where it fits in a machine word.
    pub fn as_nanos(&self) -> (r: u64)
        requires
            dur_nanos(*self) <= u64::MAX,
        ensures
            r == dur_nanos(*self),
    {
        self.secs * 1_000_000_000 + self.nanos as u64
    }
}

#[verifier::external_type_specification]
#[verifier::external_body]
pub struct ExInstant(std::time::Instant);

/// Relies on `tokio_timer::clock::now` for the current instant. The result
/// depends on the time of the call, so nothing is promised of it.
#[verifier::external_body]
pub(crate) fn clock_now() -> (r: std::time::Instant) {
    tokio_timer::clock::now()
}

/// Relies on `std::time::Instant::saturating_duration_since`: the time from
/// `earlier` to `later` in nanoseconds, zero if `later` precedes `earlier`,
/// saturating at `u64::MAX`. Instants are opaque here, so nothing is promised
/// of the result.
#[verifier::external_body]
pub(crate) fn nanos_between(earlier: &std::time::Instant, later: &std::time::Instant) -> (r: u64) {
    let d = later.saturating_duration_since(*earlier).as_nanos();
    u64::try_from(d).unwrap_or(u64::MAX)
}

} // verus!
