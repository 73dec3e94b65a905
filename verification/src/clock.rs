//! Time as plain numbers: lengths of time, and readings of a clock that never runs back.

use vstd::prelude::*;

verus! {

pub const NANOS_PER_SECOND: u128 = 1_000_000_000;

pub const NANOS_PER_MILLI: u128 = 1_000_000;

/// A length of time.
#[derive(Debug, Clone, Copy, PartialEq, Eq, Structural)]
pub struct Span {
    pub nanos: u128,
}

impl Span {
    pub open spec fn seconds(secs: int) -> Span {
        Span { nanos: (secs * NANOS_PER_SECOND) as u128 }
    }

    pub open spec fn millis(millis: int) -> Span {
        Span { nanos: (millis * NANOS_PER_MILLI) as u128 }
    }

    /// `secs` whole seconds.
    pub fn from_secs(secs: u64) -> (r: Span)
        ensures
            r.nanos == secs * NANOS_PER_SECOND,
            r == Span::seconds(secs as int),
    {
        Span { nanos: secs as u128 * NANOS_PER_SECOND }
    }

    /// `millis` thousandths of a second.
    pub fn from_millis(millis: u64) -> (r: Span)
        ensures
            r.nanos == millis * NANOS_PER_MILLI,
            r == Span::millis(millis as int),
    {
        Span { nanos: millis as u128 * NANOS_PER_MILLI }
    }

    /// The whole seconds of this length.
    pub fn as_secs(&self) -> (r: u128)
        ensures
            r == self.nanos / NANOS_PER_SECOND,
    {
        self.nanos / NANOS_PER_SECOND
    }
}

/// A reading of the monotonic clock, counted from a moment before the daemon started.
#[derive(Debug, Clone, Copy, PartialEq, Eq, Structural)]
pub struct Moment {
    pub nanos: u128,
}

impl Moment {
    /// How long after `earlier` this is; no time at all where it is not after it.
    pub open spec fn since(self, earlier: Moment) -> Span {
        if earlier.nanos <= self.nanos {
            Span { nanos: (self.nanos - earlier.nanos) as u128 }
        } else {
            Span { nanos: 0 }
        }
    }

    /// The length of time from `earlier` to this reading, or none where this one is not
    /// the later of the two.
    pub fn duration_since(&self, earlier: Moment) -> (r: Span)
        ensures
            r == self.since(earlier),
    {
        if earlier.nanos <= self.nanos {
            Span { nanos: self.nanos - earlier.nanos }
        } else {
            Span { nanos: 0 }
        }
    }
}

/// A second has a thousand million nanoseconds, a thousandth of it a million.
pub proof fn units_count_nanoseconds(n: int)
    requires
        0 <= n <= u64::MAX,
    ensures
        Span::seconds(n).nanos == n * 1_000_000_000,
        Span::millis(n).nanos == n * 1_000_000,
        Span::seconds(n).nanos == Span::millis(n).nanos * 1_000,
        NANOS_PER_SECOND == 1_000_000_000,
        NANOS_PER_MILLI == 1_000_000,
{
}

/// A reading is its distance from an earlier one later than that; from a reading that is not
/// earlier there is no distance.
pub proof fn distances_lead_from_one_reading_to_the_other(earlier: Moment, now: Moment)
    ensures
        earlier.nanos <= now.nanos ==> earlier.nanos + now.since(earlier).nanos == now.nanos,
        now.nanos <= earlier.nanos ==> now.since(earlier).nanos == 0,
{
}

/// A count that goes out as a number of 32 or 64 bits is told up to its multiples of what such
/// a number cannot hold.
pub proof fn counts_are_cut_to_their_width(n: u128)
    ensures
        n as u32 as int == n as int % 4_294_967_296,
        n as u64 as int == n as int % 18_446_744_073_709_551_616,
{
    assert(n as u32 == n % 4_294_967_296) by (bit_vector);
    assert(n as u64 == n % 18_446_744_073_709_551_616) by (bit_vector);
}

} // verus!
