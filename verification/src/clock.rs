//! Points in time and spans of time, in the shape the protocol needs them.

use vstd::prelude::*;

verus! {

/// Nanoseconds in one second.
pub const NSEC_PER_SEC: i32 = 1_000_000_000;

/// A point in time: seconds since the Unix epoch and the nanoseconds into
/// that second.
#[derive(Clone, Copy, Debug, PartialEq, Eq)]
pub struct Timespec {
    pub sec: i64,
    pub nsec: i32,
}

impl Timespec {
    /// Whether the nanoseconds stay within one second.
    pub open spec fn is_normal(self) -> bool {
        0 <= self.nsec < NSEC_PER_SEC
    }

    /// The point in time as nanoseconds since the epoch.
    pub open spec fn nanos(self) -> int {
        self.sec * NSEC_PER_SEC + self.nsec
    }

    /// The point in time `sec` seconds and `nsec` nanoseconds after the epoch.
    pub fn new(sec: i64, nsec: i32) -> (t: Timespec)
        requires
            0 <= nsec < NSEC_PER_SEC,
        ensures
            t == (Timespec { sec, nsec }),
    {
        Timespec { sec, nsec }
    }

    /// The point in time `span` later, where its seconds still fit.
    pub fn checked_add(self, span: Duration) -> (t: Option<Timespec>)
        ensures
            t == if i64::MIN <= self.sec + span.num_seconds() <= i64::MAX {
                Some(Timespec { sec: (self.sec + span.num_seconds()) as i64, nsec: self.nsec })
            } else {
                None
            },
    {
        match self.sec.checked_add(span.seconds) {
            Some(sec) => Some(Timespec { sec, nsec: self.nsec }),
            None => None,
        }
    }

    /// Whether more than `limit` has passed between `self` and `now`.
    pub fn is_older_than(self, limit: Duration, now: Timespec) -> (older: bool)
        ensures
            older == (now.nanos() - self.nanos() > limit.num_seconds() * NSEC_PER_SEC),
    {
        let per_sec: i128 = NSEC_PER_SEC as i128;
        let then: i128 = self.sec as i128 * per_sec + self.nsec as i128;
        let at: i128 = now.sec as i128 * per_sec + now.nsec as i128;
        let span: i128 = limit.seconds as i128 * per_sec;
        at - then > span
    }
}

/// A span of time in whole seconds.
#[derive(Clone, Copy, Debug, PartialEq, Eq)]
pub struct Duration {
    seconds: i64,
}

impl Duration {
    /// The length of the span in seconds.
    pub closed spec fn spec_num_seconds(self) -> i64 {
        self.seconds
    }

    /// A span of `seconds` seconds.
    pub fn seconds(seconds: i64) -> (span: Duration)
        ensures
            span.num_seconds() == seconds,
    {
        Duration { seconds }
    }

    /// A span of `minutes` minutes.
    pub fn minutes(minutes: i64) -> (span: Duration)
        requires
            i64::MIN <= minutes * 60 <= i64::MAX,
        ensures
            span.num_seconds() == minutes * 60,
    {
        Duration { seconds: minutes * 60 }
    }

    /// The length of the span in seconds.
    #[verifier::when_used_as_spec(spec_num_seconds)]
    pub fn num_seconds(self) -> (n: i64)
        ensures
            n == self.spec_num_seconds(),
    {
        self.seconds
    }
}

/// `time::get_time`: the time on the system's clock. The crate builds the
/// result with `time::Timespec::new`, which keeps the nanoseconds within one
/// second; what time it is cannot be stated.
#[verifier::external_body]
pub(crate) fn get_time() -> (now: Timespec)
    ensures
        now.is_normal(),
{
    let now = time::get_time();
    Timespec { sec: now.sec, nsec: now.nsec }
}

} // verus!
