//! Time as the scheduler sees it: points on the wall clock and the
//! microseconds between them.

use vstd::prelude::*;

verus! {

/// A span of time in microseconds. It is negative where the clock went back.
pub type Micros = i64;

/// A point in time: whole seconds since the epoch, and the nanoseconds into
/// that second.
#[derive(Clone, Copy, Debug, PartialEq, Eq, Structural)]
pub struct Timestamp {
    /// Seconds since the epoch.
    pub sec: i64,
    /// Nanoseconds after the second.
    pub nsec: i32,
}

/// The point in time as nanoseconds since the epoch.
pub open spec fn nanos_of(t: Timestamp) -> int {
    t.sec * 1_000_000_000 + t.nsec
}

/// The whole microseconds in a span of nanoseconds, rounded towards zero.
pub open spec fn whole_micros(nanos: int) -> int {
    if nanos >= 0 {
        nanos / 1000
    } else {
        -((-nanos) / 1000)
    }
}

/// The whole microseconds from `earlier` to `later`.
pub open spec fn micros_between(earlier: Timestamp, later: Timestamp) -> int {
    whole_micros(nanos_of(later) - nanos_of(earlier))
}

/// The span from `earlier` to `later` as far as it can be told in
/// microseconds: where the whole microseconds do not fit, the span is 0.
pub open spec fn span_between(earlier: Timestamp, later: Timestamp) -> Micros {
    if i64::MIN <= micros_between(earlier, later) <= i64::MAX {
        micros_between(earlier, later) as Micros
    } else {
        0
    }
}

/// Calls `time::get_time`, which reads the wall clock. Nothing can be said of
/// the time it reads, but that the nanoseconds lie within a second:
/// `Timespec::new` asserts as much before `get_time` returns.
#[verifier::external_body]
fn read_clock() -> (now: Timestamp)
    ensures
        0 <= now.nsec < 1_000_000_000,
{
    let spec = time::get_time();
    Timestamp { sec: spec.sec, nsec: spec.nsec }
}

impl Timestamp {
    /// The current time on the wall clock.
    pub fn now() -> (now: Timestamp)
        ensures
            0 <= now.nsec < 1_000_000_000,
    {
        read_clock()
    }

    /// The whole microseconds from `self` to `later`, rounded towards zero;
    /// 0 where they do not fit the result.
    pub fn micros_until(&self, later: &Timestamp) -> (elapsed: Micros)
        ensures
            elapsed == span_between(*self, *later),
    {
        let seconds: i128 = later.sec as i128 - self.sec as i128;
        let nanos: i128 = seconds * 1_000_000_000 + (later.nsec as i128 - self.nsec as i128);
        let micros: i128 = if nanos >= 0 {
            nanos / 1000
        } else {
            -((-nanos) / 1000)
        };
        if micros < i64::MIN as i128 || micros > i64::MAX as i128 {
            0
        } else {
            micros as i64
        }
    }
}

} // verus!
