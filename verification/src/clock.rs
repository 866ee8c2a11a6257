//! Readings of the system clock and the time between them.

use vstd::prelude::*;
use std::time::{SystemTime, UNIX_EPOCH};

verus! {

/// A reading of the system clock: its distance from the Unix epoch, and the
/// side of the epoch on which it lies.
#[derive(Debug, Clone, Copy, PartialEq, Eq)]
pub struct Timestamp {
    pub before_epoch: bool,
    pub secs: u64,
    pub nanos: u32,
}

/// A span of time.
#[derive(Debug, Clone, Copy, PartialEq, Eq)]
pub struct Duration {
    pub nanos: u128,
}

impl Timestamp {
    /// Nanoseconds since the Unix epoch, negative before it.
    pub open spec fn at(self) -> int {
        let distance = self.secs * 1_000_000_000 + self.nanos;
        if self.before_epoch {
            -distance
        } else {
            distance
        }
    }

    /// Whether the part below a second is below a second.
    pub open spec fn is_normal(self) -> bool {
        self.nanos < 1_000_000_000
    }

    /// The time from `earlier` to `self`; nothing, if `earlier` is the later.
    pub open spec fn since(self, earlier: Timestamp) -> Option<Duration> {
        if self.at() >= earlier.at() {
            Some(Duration { nanos: (self.at() - earlier.at()) as u128 })
        } else {
            None
        }
    }

    fn to_nanos(&self) -> (res: i128)
        ensures
            res == self.at(),
    {
        let distance: i128 = self.secs as i128 * 1_000_000_000 + self.nanos as i128;
        if self.before_epoch {
            -distance
        } else {
            distance
        }
    }

    /// The time from `earlier` to `self`; nothing, if `earlier` is the later.
    pub fn duration_since(&self, earlier: &Timestamp) -> (res: Option<Duration>)
        ensures
            res == self.since(*earlier),
    {
        let from: i128 = earlier.to_nanos();
        let to: i128 = self.to_nanos();
        if to >= from {
            Some(Duration { nanos: (to - from) as u128 })
        } else {
            None
        }
    }
}

impl Duration {
    /// The whole seconds in the span.
    pub open spec fn secs(self) -> nat {
        self.nanos as nat / 1_000_000_000
    }

    /// The whole seconds in the span.
    pub fn as_secs(&self) -> (res: u128)
        ensures
            res == self.secs(),
    {
        self.nanos / 1_000_000_000
    }
}

/// Reads the clock with `std::time::SystemTime::now` and takes its distance
/// from `UNIX_EPOCH` apart. Claimed: only that the part below a second is
/// below a second. Which time it is, and whether a later call gives a later
/// time, is left open.
#[verifier::external_body]
pub(crate) fn now() -> (res: Timestamp)
    ensures
        res.is_normal(),
{
    match SystemTime::now().duration_since(UNIX_EPOCH) {
        Ok(d) => Timestamp { before_epoch: false, secs: d.as_secs(), nanos: d.subsec_nanos() },
        Err(e) => Timestamp {
            before_epoch: true,
            secs: e.duration().as_secs(),
            nanos: e.duration().subsec_nanos(),
        },
    }
}

/// The time between two readings is as many nanoseconds as the later reading
/// is further on than the earlier one, and there is none the other way.
pub proof fn law_time_between(a: Timestamp, b: Timestamp)
    ensures
        a.before_epoch ==> a.at() == -1_000_000_000 * a.secs - a.nanos,
        !a.before_epoch ==> a.at() == 1_000_000_000 * a.secs + a.nanos,
        b.since(a) matches Some(time) ==> a.at() + time.nanos == b.at(),
        b.since(a) is None <==> b.at() < a.at(),
{
}

/// Two readings with the same part below a second, `n` seconds apart, have `n`
/// whole seconds between them; a part of a second more does not count.
pub proof fn law_whole_seconds(a: Timestamp, n: nat, part: nat, b: Timestamp)
    requires
        part < 1_000_000_000,
        b.at() == a.at() + n * 1_000_000_000 + part,
    ensures
        b.since(a) matches Some(time) && time.secs() == n,
{
}

/// The whole seconds of a span are no more than the span, and one more would
/// be.
pub proof fn law_seconds(time: Duration)
    ensures
        time.secs() * 1_000_000_000 <= time.nanos < (time.secs() + 1) * 1_000_000_000,
{
}

} // verus!
