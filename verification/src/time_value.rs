//! Positions in time, elapsed time between them, and values placed in time.

use vstd::prelude::*;

verus! {

/// A calendar year, counted as a plain integer. One unit is one year exactly.
pub type Year = i32;

/// A ratio of two integers, `num / den`, as a mathematical value.
pub struct Ratio {
    /// Numerator.
    pub num: int,
    /// Denominator.
    pub den: int,
}

impl Ratio {
    /// The ratio with the opposite sign.
    pub open spec fn opposite(self) -> Ratio {
        Ratio { num: -self.num, den: self.den }
    }
}

/// A signed span of time in years, held exactly as the ratio `num / den`.
/// Every span that the library hands out has a positive denominator.
#[derive(Clone, Copy, Debug, PartialEq, Eq, Structural)]
pub struct Years {
    /// Numerator; its sign is the sign of the span.
    pub num: i64,
    /// Denominator.
    pub den: i64,
}

impl View for Years {
    type V = Ratio;

    open spec fn view(&self) -> Ratio {
        Ratio { num: self.num as int, den: self.den as int }
    }
}

/// A position in time: an instant or a period on a totally ordered time line.
pub trait TimePoint: Copy {
    /// Where `self` lies on the time line. Earlier positions have smaller
    /// instants; two positions coincide exactly when their instants are
    /// equal.
    spec fn instant(&self) -> int;

    /// Elapsed years from `self` to `other`, as an exact ratio.
    spec fn spec_years_to(&self, other: &Self) -> Ratio;

    /// Elapsed time is antisymmetric: measured the other way round it has
    /// the same size and the opposite sign.
    proof fn lemma_years_to_reverses(&self, other: &Self)
        ensures
            self.spec_years_to(other) == other.spec_years_to(self).opposite(),
    ;

    /// Whether `self` lies strictly earlier than `other`.
    fn earlier_than(&self, other: &Self) -> (b: bool)
        ensures
            b == (self.instant() < other.instant()),
    ;

    /// Whether `self` and `other` are the same position.
    fn same_instant(&self, other: &Self) -> (b: bool)
        ensures
            b == (self.instant() == other.instant()),
    ;

    /// Signed elapsed time in years from `self` to `other`.
    fn years_to(&self, other: &Self) -> (y: Years)
        ensures
            y@ == self.spec_years_to(other),
            y.den > 0,
    ;
}

/// Something that sits at a position in time.
///
/// A raw time type is its own position (`T = Self`); a composite such as
/// [`TimeValue`] hands out the time it carries.
pub trait Time: Copy {
    /// The type of the position in time.
    type T: TimePoint;

    /// The position that `self` occupies.
    spec fn spec_time(&self) -> Self::T;

    /// The position in time of `self`.
    fn time(&self) -> (t: Self::T)
        ensures
            t == self.spec_time(),
    ;

    /// Signed elapsed time in years from `self` until `time`.
    fn years_until(&self, time: &Self::T) -> (y: Years)
        ensures
            y@ == self.spec_time().spec_years_to(time),
            y.den > 0,
    ;
}

impl TimePoint for Year {
    open spec fn instant(&self) -> int {
        *self as int
    }

    /// The integer difference `other - self`, in whole years.
    open spec fn spec_years_to(&self, other: &Year) -> Ratio {
        Ratio { num: *other - *self, den: 1 }
    }

    proof fn lemma_years_to_reverses(&self, other: &Year) {
    }

    fn earlier_than(&self, other: &Year) -> (b: bool) {
        *self < *other
    }

    fn same_instant(&self, other: &Year) -> (b: bool) {
        *self == *other
    }

    fn years_to(&self, other: &Year) -> (y: Years) {
        let from: i64 = *self as i64;
        let to: i64 = *other as i64;
        Years { num: to - from, den: 1 }
    }
}

/// A year is its own position in time.
impl Time for Year {
    type T = Year;

    open spec fn spec_time(&self) -> Year {
        *self
    }

    fn time(&self) -> (t: Year) {
        *self
    }

    fn years_until(&self, time: &Year) -> (y: Years) {
        self.years_to(time)
    }
}

/// A value placed at a position in time: the unit that a series stores.
///
/// The value is carried, never computed on, so any copyable type serves.
#[derive(Clone, Copy, Debug, PartialEq, PartialOrd)]
pub struct TimeValue<T, V> {
    /// Time associated with the value.
    pub time: T,
    /// The value itself.
    pub value: V,
}

/// A value placed at a year.
pub type YearValue<V> = TimeValue<Year, V>;

/// A time value sits at the time it carries.
impl<T: TimePoint, V: Copy> Time for TimeValue<T, V> {
    type T = T;

    open spec fn spec_time(&self) -> T {
        self.time
    }

    fn time(&self) -> (t: T) {
        self.time
    }

    fn years_until(&self, time: &T) -> (y: Years) {
        self.time.years_to(time)
    }
}

/// There and back, the elapsed years cancel: from anything that sits in
/// time to a target and from the target back to where it sat, the two spans
/// have one denominator and numerators that sum to zero.
pub proof fn lemma_years_there_and_back_cancel<A: Time>(start: A, target: A::T)
    ensures
        start.spec_time().spec_years_to(&target).den == target.spec_years_to(
            &start.spec_time(),
        ).den,
        start.spec_time().spec_years_to(&target).num + target.spec_years_to(
            &start.spec_time(),
        ).num == 0,
{
    start.spec_time().lemma_years_to_reverses(&target);
}

} // verus!
