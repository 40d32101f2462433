//! Points in time and spans of time as signed nanosecond counts.

use vstd::prelude::*;

verus! {

/// A point in time, counted in nanoseconds from the Unix epoch (UTC).
#[derive(Debug, Clone, Copy, PartialEq, Eq, Structural)]
pub struct Timestamp {
    /// Nanoseconds since 1970-01-01T00:00:00Z; negative before the epoch.
    pub unix_nanos: i128,
}

/// A signed span of time in nanoseconds.
#[derive(Debug, Clone, Copy, PartialEq, Eq, Structural)]
pub struct Duration {
    /// Length of the span in nanoseconds.
    pub nanos: i128,
}

impl Timestamp {
    /// The Unix epoch, 1970-01-01T00:00:00Z.
    pub fn unix_epoch() -> (t: Timestamp)
        ensures
            t.unix_nanos == 0,
    {
        Timestamp { unix_nanos: 0 }
    }

    /// A timestamp from nanoseconds since the Unix epoch.
    pub fn from_unix_nanos(unix_nanos: i128) -> (t: Timestamp)
        ensures
            t.unix_nanos == unix_nanos,
    {
        Timestamp { unix_nanos }
    }

    /// A timestamp from whole seconds since the Unix epoch.
    pub fn from_unix_seconds(seconds: i64) -> (t: Timestamp)
        ensures
            t.unix_nanos == seconds * 1_000_000_000,
    {
        assert(-9_223_372_036_854_775_808_000_000_000 <= seconds * 1_000_000_000
            <= 9_223_372_036_854_775_807_000_000_000) by (nonlinear_arith)
            requires
                i64::MIN <= seconds <= i64::MAX,
        ;
        Timestamp { unix_nanos: (seconds as i128) * 1_000_000_000 }
    }

    /// Whether `self` is strictly earlier than `other`.
    pub fn is_before(self, other: Timestamp) -> (r: bool)
        ensures
            r == (self.unix_nanos < other.unix_nanos),
    {
        self.unix_nanos < other.unix_nanos
    }

    /// The later of two timestamps.
    pub fn max(self, other: Timestamp) -> (r: Timestamp)
        ensures
            r.unix_nanos == if self.unix_nanos < other.unix_nanos {
                other.unix_nanos
            } else {
                self.unix_nanos
            },
    {
        if self.unix_nanos < other.unix_nanos {
            other
        } else {
            self
        }
    }
}

/// Whether more than `span` has elapsed from `earlier` to `later`, computed
/// without overflow over the mathematical integers.
pub fn elapsed_exceeds(later: Timestamp, earlier: Timestamp, span: Duration) -> (r: bool)
    ensures
        r == (later.unix_nanos - earlier.unix_nanos > span.nanos),
{
    let at = earlier.unix_nanos;
    let ttl = span.nanos;
    if ttl >= 0 {
        if at > i128::MAX - ttl {
            false
        } else {
            later.unix_nanos > at + ttl
        }
    } else {
        if at < i128::MIN - ttl {
            true
        } else {
            later.unix_nanos > at + ttl
        }
    }
}

impl Duration {
    /// A span of whole seconds.
    pub fn seconds(seconds: i64) -> (d: Duration)
        ensures
            d.nanos == seconds * 1_000_000_000,
    {
        assert(-9_223_372_036_854_775_808_000_000_000 <= seconds * 1_000_000_000
            <= 9_223_372_036_854_775_807_000_000_000) by (nonlinear_arith)
            requires
                i64::MIN <= seconds <= i64::MAX,
        ;
        Duration { nanos: (seconds as i128) * 1_000_000_000 }
    }

    /// A span of whole minutes.
    pub fn minutes(minutes: i32) -> (d: Duration)
        ensures
            d.nanos == minutes * 60_000_000_000,
    {
        assert(-128_849_018_880_000_000_000 <= minutes * 60_000_000_000
            <= 128_849_018_820_000_000_000) by (nonlinear_arith)
            requires
                i32::MIN <= minutes <= i32::MAX,
        ;
        Duration { nanos: (minutes as i128) * 60_000_000_000 }
    }
}

} // verus!
