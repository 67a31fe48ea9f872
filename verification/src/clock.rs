//! Moments in time, as the registry stores them.

use vstd::prelude::*;
use crate::foreign::{format_rfc3339, rfc3339_utc, LAST_SECOND};

verus! {

pub const SECONDS_PER_DAY: i64 = 86400;

/// A moment between the start of 1970 and the end of 9999, in seconds and
/// nanoseconds since the start of 1970 (UTC).
#[derive(Clone, Copy, Debug, PartialEq, Eq, Structural)]
pub struct Timestamp {
    sec: i64,
    nsec: i32,
}

impl Timestamp {
    #[verifier::type_invariant]
    spec fn in_range(self) -> bool {
        0 <= self.sec <= LAST_SECOND && 0 <= self.nsec < 1_000_000_000
    }

    /// The whole seconds of the moment.
    pub closed spec fn secs(self) -> int {
        self.sec as int
    }

    /// The nanoseconds past the whole second.
    pub closed spec fn nanos(self) -> int {
        self.nsec as int
    }

    /// The number of the calendar day (UTC) that the moment falls on.
    pub open spec fn day_number(self) -> int {
        self.secs() / 86400
    }

    /// The moment `sec` seconds and `nsec` nanoseconds after the start of 1970,
    /// if it lies in the range that a `Timestamp` covers.
    pub fn new(sec: i64, nsec: i32) -> (r: Option<Timestamp>)
        ensures
            r is Some <==> (0 <= sec <= LAST_SECOND && 0 <= nsec < 1_000_000_000),
            r matches Some(t) ==> t.secs() == sec && t.nanos() == nsec,
    {
        if 0 <= sec && sec <= LAST_SECOND && 0 <= nsec && nsec < 1_000_000_000 {
            Some(Timestamp { sec, nsec })
        } else {
            None
        }
    }

    pub fn sec(&self) -> (r: i64)
        ensures
            r == self.secs(),
            0 <= r <= LAST_SECOND,
    {
        proof {
            use_type_invariant(self);
        }
        self.sec
    }

    pub fn nsec(&self) -> (r: i32)
        ensures
            r == self.nanos(),
            0 <= r < 1_000_000_000,
    {
        proof {
            use_type_invariant(self);
        }
        self.nsec
    }

    /// The number of the calendar day (UTC) that the moment falls on.
    pub fn day(&self) -> (r: i64)
        ensures
            r == self.day_number(),
    {
        proof {
            use_type_invariant(self);
        }
        self.sec / SECONDS_PER_DAY
    }

    /// Whether `self` is not later than `other`.
    pub open spec fn not_after(self, other: Timestamp) -> bool {
        self.secs() < other.secs() || (self.secs() == other.secs() && self.nanos() <= other.nanos())
    }

    pub fn le(&self, other: &Timestamp) -> (r: bool)
        ensures
            r == self.not_after(*other),
    {
        self.sec < other.sec || (self.sec == other.sec && self.nsec <= other.nsec)
    }

    /// Two moments with the same seconds and nanoseconds are the same moment.
    pub proof fn lemma_same_moment(self, other: Timestamp)
        requires
            self.secs() == other.secs(),
            self.nanos() == other.nanos(),
        ensures
            self == other,
    {
    }
}

/// The moment as RFC 3339 text in UTC, such as `2012-02-22T14:53:18Z`.
pub fn encode_time(ts: Timestamp) -> (r: String)
    ensures
        r@ == rfc3339_utc(ts.secs(), ts.nanos()),
{
    format_rfc3339(ts.sec(), ts.nsec())
}

} // verus!
