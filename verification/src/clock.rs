//! Monotonic instants and durations as plain nanosecond counts.

use vstd::prelude::*;

verus! {

/// Nanoseconds in one second.
pub const NANOS_PER_SEC: u128 = 1_000_000_000;

/// Nanoseconds in one millisecond.
pub const NANOS_PER_MILLI: u128 = 1_000_000;

/// Last instant of the monotonic clock: seconds are a signed 64-bit count.
pub const LAST_MOMENT_NANOS: u128 = 9_223_372_036_854_775_807_999_999_999;

/// A duration in nanoseconds.
#[derive(Clone, Copy, Debug, PartialEq, Eq, Structural)]
pub struct Span {
    pub nanos: u128,
}

/// A monotonic instant, in nanoseconds since the clock's origin.
#[derive(Clone, Copy, Debug, PartialEq, Eq, Structural)]
pub struct Moment {
    pub nanos: u128,
}

/// The larger of two instants.
pub open spec fn later(a: Moment, b: Moment) -> Moment {
    if a.nanos < b.nanos {
        b
    } else {
        a
    }
}

/// The larger of two durations.
pub open spec fn longer(a: Span, b: Span) -> Span {
    if a.nanos < b.nanos {
        b
    } else {
        a
    }
}

impl Span {
    /// The empty duration.
    pub open spec fn zero() -> Span {
        Span { nanos: 0 }
    }

    /// A duration of whole seconds.
    pub fn from_secs(secs: u64) -> (res: Self)
        ensures
            res.nanos == secs * NANOS_PER_SEC,
    {
        Span { nanos: secs as u128 * NANOS_PER_SEC }
    }

    /// A duration of whole milliseconds.
    pub fn from_millis(millis: u64) -> (res: Self)
        ensures
            res.nanos == millis * NANOS_PER_MILLI,
    {
        Span { nanos: millis as u128 * NANOS_PER_MILLI }
    }

    /// Whole seconds, saturating at the largest count.
    pub fn as_secs(self) -> (res: u64)
        ensures
            res == if self.nanos / NANOS_PER_SEC <= u64::MAX {
                self.nanos / NANOS_PER_SEC
            } else {
                u64::MAX as u128
            },
    {
        let secs: u128 = self.nanos / NANOS_PER_SEC;
        if secs <= u64::MAX as u128 {
            secs as u64
        } else {
            u64::MAX
        }
    }

    /// Whole milliseconds, saturating at the largest count.
    pub open spec fn millis(self) -> u64 {
        if self.nanos / NANOS_PER_MILLI <= u64::MAX {
            (self.nanos / NANOS_PER_MILLI) as u64
        } else {
            u64::MAX
        }
    }

    /// The larger of two durations.
    pub fn max(self, other: Span) -> (res: Self)
        ensures
            res == longer(self, other),
    {
        if self.nanos < other.nanos {
            other
        } else {
            self
        }
    }
}

/// Whole milliseconds of `duration`, saturating at the largest count.
pub fn duration_millis_u64(duration: Span) -> (res: u64)
    ensures
        res == duration.millis(),
{
    let millis: u128 = duration.nanos / NANOS_PER_MILLI;
    if millis <= u64::MAX as u128 {
        millis as u64
    } else {
        u64::MAX
    }
}

impl Moment {
    /// The instant `span` after `self`, if the clock can represent it.
    pub open spec fn plus(self, span: Span) -> Option<Moment> {
        if self.nanos + span.nanos <= LAST_MOMENT_NANOS {
            Some(Moment { nanos: (self.nanos + span.nanos) as u128 })
        } else {
            None
        }
    }

    /// The instant `span` after `self`, or `None` beyond the clock's range.
    pub fn checked_add(self, span: Span) -> (res: Option<Self>)
        ensures
            res == self.plus(span),
    {
        match self.nanos.checked_add(span.nanos) {
            Some(nanos) => {
                if nanos <= LAST_MOMENT_NANOS {
                    Some(Moment { nanos })
                } else {
                    None
                }
            },
            None => None,
        }
    }

    /// The instant `span` after `self`, or `self` beyond the clock's range.
    pub open spec fn plus_or_self(self, span: Span) -> Moment {
        match self.plus(span) {
            Some(moment) => moment,
            None => self,
        }
    }

    /// The instant `span` after `self`, or `self` beyond the clock's range.
    pub fn add_or_self(self, span: Span) -> (res: Self)
        ensures
            res == self.plus_or_self(span),
    {
        match self.checked_add(span) {
            Some(moment) => moment,
            None => self,
        }
    }

    /// The time from `earlier` to `self`, zero when `earlier` is later.
    pub open spec fn since(self, earlier: Moment) -> Span {
        if earlier.nanos <= self.nanos {
            Span { nanos: (self.nanos - earlier.nanos) as u128 }
        } else {
            Span { nanos: 0 }
        }
    }

    /// The time from `earlier` to `self`, zero when `earlier` is later.
    pub fn saturating_duration_since(self, earlier: Moment) -> (res: Span)
        ensures
            res == self.since(earlier),
    {
        if earlier.nanos <= self.nanos {
            Span { nanos: self.nanos - earlier.nanos }
        } else {
            Span { nanos: 0 }
        }
    }

    /// The later of two instants.
    pub fn max(self, other: Moment) -> (res: Self)
        ensures
            res == later(self, other),
    {
        if self.nanos < other.nanos {
            other
        } else {
            self
        }
    }
}

/// Adding a duration moves an instant by exactly that duration, within the clock's range: the time
/// between the two is the duration again, and a sum past the range is none.
pub proof fn adding_and_measuring_agree(start: Moment, span: Span)
    ensures
        start.plus(span) is Some <==> start.nanos + span.nanos
            <= 9_223_372_036_854_775_807_999_999_999,
        start.plus(span) matches Some(end) ==> {
            &&& end.nanos == start.nanos + span.nanos
            &&& end.since(start) == span
            &&& span.nanos > 0 ==> start.since(end).nanos == 0
            &&& start.plus_or_self(span) == end
        },
        start.plus(span) is None ==> start.plus_or_self(span) == start,
{
}

/// The time between two instants is their distance, or nothing when it would run backwards.
pub proof fn time_between_is_the_distance(earlier: Moment, end: Moment)
    ensures
        earlier.nanos <= end.nanos ==> earlier.nanos + end.since(earlier).nanos == end.nanos,
        end.nanos <= earlier.nanos ==> end.since(earlier).nanos == 0,
{
}

/// The later instant and the longer duration are the largest of their two arguments.
pub proof fn later_and_longer_are_largest(a: Moment, b: Moment, x: Span, y: Span)
    ensures
        later(a, b) == a || later(a, b) == b,
        a.nanos <= later(a, b).nanos && b.nanos <= later(a, b).nanos,
        longer(x, y) == x || longer(x, y) == y,
        x.nanos <= longer(x, y).nanos && y.nanos <= longer(x, y).nanos,
{
}

/// Whole milliseconds are rounded down, and saturate only past the largest count.
pub proof fn milliseconds_are_rounded_down(span: Span)
    ensures
        span.nanos < 18_446_744_073_709_551_616_000_000 ==> span.millis() * 1_000_000 <= span.nanos
            < (span.millis() + 1) * 1_000_000,
        span.nanos >= 18_446_744_073_709_551_616_000_000 ==> span.millis() == u64::MAX,
{
}

} // verus!
