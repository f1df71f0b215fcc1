//! Readings of a monotonic clock and the time between them, in nanoseconds.
use vstd::prelude::*;

verus! {

pub const NANOS_PER_SECOND: u128 = 1_000_000_000;

pub const NANOS_PER_MILLI: u128 = 1_000_000;

/// A length of time.
#[derive(Clone, Copy, Debug, PartialEq, Eq, Structural, PartialOrd, Ord)]
pub struct Duration {
    pub nanos: u128,
}

/// A reading of the clock.
#[derive(Clone, Copy, Debug, PartialEq, Eq, Structural, PartialOrd, Ord)]
pub struct Instant {
    pub nanos: u128,
}

/// The whole thousandths of a second in so many nanoseconds, or the greatest number where they
/// are more.
pub open spec fn whole_millis(nanos: nat) -> u64 {
    if nanos / (NANOS_PER_MILLI as nat) <= u64::MAX {
        (nanos / (NANOS_PER_MILLI as nat)) as u64
    } else {
        u64::MAX
    }
}

impl Duration {
    /// This many seconds.
    pub fn from_secs(seconds: u64) -> (r: Self)
        ensures
            r.nanos == seconds * NANOS_PER_SECOND,
    {
        Duration { nanos: seconds as u128 * NANOS_PER_SECOND }
    }

    /// This many thousandths of a second.
    pub fn from_millis(millis: u64) -> (r: Self)
        ensures
            r.nanos == millis * NANOS_PER_MILLI,
    {
        Duration { nanos: millis as u128 * NANOS_PER_MILLI }
    }

    /// The whole seconds.
    pub fn as_secs(&self) -> (r: u64)
        ensures
            r == if self.nanos / NANOS_PER_SECOND <= u64::MAX {
                self.nanos / NANOS_PER_SECOND
            } else {
                u64::MAX as u128
            },
    {
        let seconds: u128 = self.nanos / NANOS_PER_SECOND;
        if seconds <= u64::MAX as u128 {
            seconds as u64
        } else {
            u64::MAX
        }
    }

    /// The whole thousandths of a second, or the greatest number where they are more.
    pub fn as_millis(&self) -> (r: u64)
        ensures
            r == whole_millis(self.nanos as nat),
    {
        let millis: u128 = self.nanos / NANOS_PER_MILLI;
        if millis <= u64::MAX as u128 {
            millis as u64
        } else {
            u64::MAX
        }
    }
}

impl Instant {
    /// The nanoseconds since an earlier reading, none where that reading is later.
    pub open spec fn since(self, earlier: Instant) -> nat {
        if self.nanos >= earlier.nanos {
            (self.nanos - earlier.nanos) as nat
        } else {
            0
        }
    }

    /// The time since an earlier reading, none where that reading is later.
    pub fn duration_since(&self, earlier: Instant) -> (r: Duration)
        ensures
            r.nanos == self.since(earlier),
    {
        if self.nanos >= earlier.nanos {
            Duration { nanos: self.nanos - earlier.nanos }
        } else {
            Duration { nanos: 0 }
        }
    }
}

/// Time is counted forward: between two readings it is their difference, and back it is none.
pub proof fn law_time_is_counted_forward(earlier: Instant, later: Instant, r: Duration, back: Duration)
    requires
        earlier.nanos <= later.nanos,
        call_ensures(Instant::duration_since, (&later, earlier), r),
        call_ensures(Instant::duration_since, (&earlier, later), back),
    ensures
        earlier.nanos + r.nanos == later.nanos,
        back.nanos == 0,
{
}

/// Seconds and milliseconds are read back.
pub proof fn law_durations_are_read_back(
    n: u64,
    seconds: Duration,
    millis: Duration,
    whole: u64,
    parts: u64,
)
    requires
        call_ensures(Duration::from_secs, (n,), seconds),
        call_ensures(Duration::from_millis, (n,), millis),
        call_ensures(Duration::as_secs, (&seconds,), whole),
        call_ensures(Duration::as_millis, (&millis,), parts),
    ensures
        seconds.nanos == n * 1_000_000_000,
        millis.nanos == n * 1_000_000,
        whole == n,
        parts == n,
{
    assert(n * 1_000_000_000 / 1_000_000_000 == n);
    assert(n * 1_000_000 / 1_000_000 == n);
}

} // verus!
