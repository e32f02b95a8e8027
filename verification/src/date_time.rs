//! Calendar time in UTC, to the nanosecond.

use crate::time_value::Ratio;
use crate::time_value::Time;
use crate::time_value::TimePoint;
use crate::time_value::TimeValue;
use crate::time_value::Years;
use vstd::prelude::*;

verus! {

/// Timestamp of the earliest instant a [`DateTime`] can hold: the first
/// second of the year -262143.
pub const MIN_TIMESTAMP: i64 = -8_334_601_228_800;

/// Timestamp of the last second a [`DateTime`] can hold: the final second
/// of the year 262142.
pub const MAX_TIMESTAMP: i64 = 8_210_266_876_799;

/// Nanoseconds in a second.
pub const NANOS_PER_SECOND: u32 = 1_000_000_000;

/// Nanoseconds in a day of 86 400 seconds.
pub const NANOS_PER_DAY: i64 = 86_400_000_000_000;

/// Length of the year in hundredths of a day: a year is 364.22 days.
pub const YEAR_IN_CENTIDAYS: i64 = 36_422;

/// Whether seconds since the epoch and nanoseconds into the second name an
/// instant that a [`DateTime`] can hold.
pub open spec fn timestamp_in_range(secs: int, nanos: int) -> bool {
    &&& MIN_TIMESTAMP <= secs <= MAX_TIMESTAMP
    &&& 0 <= nanos < NANOS_PER_SECOND
}

/// Nanoseconds from the epoch to the instant named by a timestamp.
pub open spec fn nanos_since_epoch(secs: int, nanos: int) -> int {
    secs * NANOS_PER_SECOND + nanos
}

/// The quotient `x / d` rounded toward zero.
pub open spec fn div_toward_zero(x: int, d: int) -> int {
    if x >= 0 {
        x / d
    } else {
        -((-x) / d)
    }
}

/// Whole days, rounded toward zero, in a span of nanoseconds.
pub open spec fn whole_days(span_nanos: int) -> int {
    div_toward_zero(span_nanos, NANOS_PER_DAY as int)
}

/// An instant in UTC: seconds since 1 January 1970 and nanoseconds into the
/// second. Leap seconds are not represented.
#[derive(Clone, Copy, Debug, PartialEq, Eq, PartialOrd, Ord, Hash)]
pub struct DateTime {
    secs: i64,
    nanos: u32,
}

/// A value placed at a date and time.
pub type DateTimeValue<V> = TimeValue<DateTime, V>;

impl DateTime {
    #[verifier::type_invariant]
    spec fn in_range(self) -> bool {
        timestamp_in_range(self.secs as int, self.nanos as int)
    }

    /// Seconds since the epoch.
    pub closed spec fn spec_timestamp(self) -> int {
        self.secs as int
    }

    /// Nanoseconds into the second.
    pub closed spec fn spec_subsec_nanos(self) -> int {
        self.nanos as int
    }

    /// The instant at `secs` seconds since the epoch and `nanos` nanoseconds
    /// into that second, or `None` where that lies outside the supported
    /// range or `nanos` does not fit in a second.
    pub fn from_timestamp(secs: i64, nanos: u32) -> (r: Option<DateTime>)
        ensures
            r.is_some() == timestamp_in_range(secs as int, nanos as int),
            r matches Some(d) ==> d.spec_timestamp() == secs && d.spec_subsec_nanos() == nanos,
    {
        if MIN_TIMESTAMP <= secs && secs <= MAX_TIMESTAMP && nanos < NANOS_PER_SECOND {
            Some(DateTime { secs, nanos })
        } else {
            None
        }
    }

    /// Seconds since the epoch.
    pub fn timestamp(&self) -> (secs: i64)
        ensures
            secs == self.spec_timestamp(),
            MIN_TIMESTAMP <= secs <= MAX_TIMESTAMP,
    {
        proof {
            use_type_invariant(self);
        }
        self.secs
    }

    /// Nanoseconds into the second.
    pub fn timestamp_subsec_nanos(&self) -> (nanos: u32)
        ensures
            nanos == self.spec_subsec_nanos(),
            nanos < NANOS_PER_SECOND,
    {
        proof {
            use_type_invariant(self);
        }
        self.nanos
    }

    /// The instant of a date and time is its distance from the epoch in
    /// nanoseconds, and its elapsed years to another are the whole days
    /// from the other back to it, over a year of 364.22 days.
    pub proof fn lemma_model(self, other: DateTime)
        ensures
            self.instant() == nanos_since_epoch(self.spec_timestamp(), self.spec_subsec_nanos()),
            self.spec_years_to(&other) == (Ratio {
                num: 100 * whole_days(self.instant() - other.instant()),
                den: YEAR_IN_CENTIDAYS as int,
            }),
    {
    }
}

/// Whole days from `b` to `a`, both given as timestamps.
///
/// This is chrono's `DateTime::signed_duration_since` followed by
/// `TimeDelta::num_days`, on the two instants that
/// `DateTime::from_timestamp` makes of the arguments. For timestamps in
/// range and without leap seconds the duration is the exact difference of
/// the two instants, and `num_days` drops the fraction of a day, rounding
/// toward zero.
#[verifier::external_body]
fn whole_days_since(a_secs: i64, a_nanos: u32, b_secs: i64, b_nanos: u32) -> (days: i64)
    requires
        timestamp_in_range(a_secs as int, a_nanos as int),
        timestamp_in_range(b_secs as int, b_nanos as int),
    ensures
        days == whole_days(
            nanos_since_epoch(a_secs as int, a_nanos as int) - nanos_since_epoch(
                b_secs as int,
                b_nanos as int,
            ),
        ),
{
    let a = chrono::DateTime::from_timestamp(a_secs, a_nanos).unwrap();
    let b = chrono::DateTime::from_timestamp(b_secs, b_nanos).unwrap();
    a.signed_duration_since(b).num_days()
}

impl TimePoint for DateTime {
    closed spec fn instant(&self) -> int {
        nanos_since_epoch(self.secs as int, self.nanos as int)
    }

    /// Whole days from `other` back to `self`, over a year of 364.22 days.
    /// The span is measured from `other` to `self`, so it is negative when
    /// `other` is the later of the two.
    closed spec fn spec_years_to(&self, other: &DateTime) -> Ratio {
        Ratio {
            num: 100 * whole_days(self.instant() - other.instant()),
            den: YEAR_IN_CENTIDAYS as int,
        }
    }

    proof fn lemma_years_to_reverses(&self, other: &DateTime) {
    }

    fn earlier_than(&self, other: &DateTime) -> (b: bool) {
        proof {
            use_type_invariant(self);
            use_type_invariant(other);
        }
        self.secs < other.secs || (self.secs == other.secs && self.nanos < other.nanos)
    }

    fn same_instant(&self, other: &DateTime) -> (b: bool) {
        proof {
            use_type_invariant(self);
            use_type_invariant(other);
        }
        self.secs == other.secs && self.nanos == other.nanos
    }

    fn years_to(&self, other: &DateTime) -> (y: Years) {
        proof {
            use_type_invariant(self);
            use_type_invariant(other);
        }
        let days: i64 = whole_days_since(self.secs, self.nanos, other.secs, other.nanos);
        Years { num: 100 * days, den: YEAR_IN_CENTIDAYS }
    }
}

/// A date and time is its own position in time.
impl Time for DateTime {
    type T = DateTime;

    open spec fn spec_time(&self) -> DateTime {
        *self
    }

    fn time(&self) -> (t: DateTime) {
        *self
    }

    fn years_until(&self, time: &DateTime) -> (y: Years) {
        self.years_to(time)
    }
}

} // verus!
