//! Rate curves: series whose values are continuously compounded rates, each
//! holding from its own time until the next entry's.
//!
//! Moving an amount along a curve multiplies it by `e^(rate * years)` once
//! for each stretch of constant rate between the two times. This module
//! lays those stretches out exactly; raising `e` to a power is the caller's.

use crate::time_searchable::TimeSearchable;
use crate::time_series::count_before;
use crate::time_series::lemma_count_before_monotonic;
use crate::time_series::lemma_count_splits;
use crate::time_series::TimeSeries;
use crate::time_value::Ratio;
use crate::time_value::TimePoint;
use crate::time_value::Years;
use std::ops::Range;
use vstd::prelude::*;

verus! {

/// One stretch of a compounding schedule, over which a single rate holds.
#[derive(Clone, Copy, Debug, PartialEq)]
pub struct Leg<T, V> {
    /// Where the stretch begins.
    pub from: T,
    /// Where the stretch ends.
    pub to: T,
    /// The rate that holds over the stretch. `None` stands for the zero
    /// rate of a curve before its first observation.
    pub rate: Option<V>,
    /// Elapsed years from `from` to `to`.
    pub years: Years,
}

/// A leg as a mathematical value.
pub struct LegView<T, V> {
    /// Where the stretch begins.
    pub from: T,
    /// Where the stretch ends.
    pub to: T,
    /// The rate that holds over the stretch, if the curve has one there.
    pub rate: Option<V>,
    /// Elapsed years from `from` to `to`.
    pub years: Ratio,
}

impl<T, V> View for Leg<T, V> {
    type V = LegView<T, V>;

    open spec fn view(&self) -> LegView<T, V> {
        LegView { from: self.from, to: self.to, rate: self.rate, years: self.years@ }
    }
}

/// The discount between two times as a compounding schedule.
///
/// The factor it stands for is the product of `e^(rate * years)` over the
/// legs, or the reciprocal of that product where `reciprocal` is set.
#[derive(Clone, Debug, PartialEq)]
pub struct Discount<T, V> {
    /// The stretches of constant rate, in time order, each beginning where
    /// the one before it ends.
    pub legs: Vec<Leg<T, V>>,
    /// Whether the factor is one over what the legs compound to.
    pub reciprocal: bool,
}

/// A discount as a mathematical value.
pub struct DiscountView<T, V> {
    /// The stretches of constant rate, in time order.
    pub legs: Seq<LegView<T, V>>,
    /// Whether the factor is one over what the legs compound to.
    pub reciprocal: bool,
}

impl<T, V> View for Discount<T, V> {
    type V = DiscountView<T, V>;

    open spec fn view(&self) -> DiscountView<T, V> {
        DiscountView {
            legs: Seq::new(self.legs@.len(), |k: int| self.legs@[k]@),
            reciprocal: self.reciprocal,
        }
    }
}

/// Why a curve operation gave no curve.
#[derive(Clone, Copy, Debug, PartialEq, Eq, Structural)]
pub enum CurveError {
    /// Merging two curves is not defined.
    MergeUnsupported,
}

impl<T: TimePoint, V> TimeSeries<T, V> {
    /// Leg `k` of the schedule from `from` forward to `to`.
    ///
    /// Counting the entries of the curve from the first that is not before
    /// `from`, leg `k` ends at entry `k` and begins at the entry before it.
    /// The first leg begins at `from` instead, and the leg past the last
    /// entry before `to` ends at `to`. A leg holds the rate of the entry
    /// that it begins at, or of the last entry before `from`; where the
    /// curve has no such entry it holds none.
    pub open spec fn forward_leg(&self, from: T, to: T, k: int) -> LegView<T, V> {
        let first: int = count_before(self.instants(), from.instant());
        let last: int = count_before(self.instants(), to.instant());
        let start: T = if k == 0 {
            from
        } else {
            self.data@[first + k - 1].time
        };
        let end: T = if first + k == last {
            to
        } else {
            self.data@[first + k].time
        };
        LegView {
            from: start,
            to: end,
            rate: if first + k >= 1 {
                Some(self.data@[first + k - 1].value)
            } else {
                None
            },
            years: start.spec_years_to(&end),
        }
    }

    /// The schedule from `from` forward to `to`: one leg up to each entry in
    /// `[from, to)`, and a last one up to `to`.
    pub open spec fn forward_legs(&self, from: T, to: T) -> Seq<LegView<T, V>> {
        let inside: int = count_before(self.instants(), to.instant()) - count_before(
            self.instants(),
            from.instant(),
        );
        Seq::new((inside + 1) as nat, |k: int| self.forward_leg(from, to, k))
    }
}

impl<T: TimePoint, V: Copy> TimeSeries<T, V> {
    /// Lays out the legs from `from` forward to `to`.
    ///
    /// The rate starts as that of the last entry before `from`, if there is
    /// one. Each entry in `[from, to)` closes a leg at the rate so far and
    /// hands over its own; the last leg runs on to `to`.
    fn legs_between(&self, from: T, to: T) -> (legs: Vec<Leg<T, V>>)
        ensures
            legs@.len() >= 1,
            self.is_sorted() && from.instant() <= to.instant() ==> Seq::new(
                legs@.len(),
                |k: int| legs@[k]@,
            ) == self.forward_legs(from, to),
    {
        let range: Range<usize> = self.in_range(from..to);
        let ghost exact: bool = self.is_sorted() && from.instant() <= to.instant();
        proof {
            if exact {
                lemma_count_before_monotonic(self.instants(), from.instant(), to.instant());
            }
        }
        let mut legs: Vec<Leg<T, V>> = Vec::new();
        let mut rate: Option<V> = if range.start > 0 {
            Some(self.data[range.start - 1].value)
        } else {
            None
        };
        let mut at: T = from;
        let mut i: usize = range.start;
        while i < range.end
            invariant
                range.start <= self.data@.len(),
                range.end <= self.data@.len(),
                range.start <= i,
                exact ==> i <= range.end,
                exact ==> range.start == count_before(self.instants(), from.instant()),
                exact ==> range.end == count_before(self.instants(), to.instant()),
                exact ==> legs@.len() == i - range.start,
                exact ==> forall|k: int|
                    0 <= k < legs@.len() ==> (#[trigger] legs@[k])@ == self.forward_leg(from, to, k),
                exact ==> at == if i == range.start {
                    from
                } else {
                    self.data@[i - 1].time
                },
                exact ==> rate == if i >= 1 {
                    Some(self.data@[i - 1].value)
                } else {
                    None::<V>
                },
            decreases range.end - i,
        {
            let next: T = self.data[i].time;
            legs.push(Leg { from: at, to: next, rate, years: at.years_to(&next) });
            rate = Some(self.data[i].value);
            at = next;
            i = i + 1;
        }
        legs.push(Leg { from: at, to, rate, years: at.years_to(&to) });
        proof {
            if exact {
                assert(Seq::new(legs@.len(), |k: int| legs@[k]@) =~= self.forward_legs(from, to));
            }
        }
        legs
    }
}

/// A series read as a rate curve.
pub trait RateCurve: Sized {
    /// Type for the position in time.
    type T: TimePoint;

    /// Type for the rates.
    type V;

    /// Whether the curve is in time order.
    spec fn in_time_order(&self) -> bool;

    /// The discount that the curve implies between two times.
    spec fn implied_discount(&self, from: Self::T, to: Self::T) -> DiscountView<Self::T, Self::V>;

    /// Lays out the discount implied by `self` to move an amount from
    /// `from` to `to`.
    ///
    /// Where `from` is later than `to`, the legs are those from `to`
    /// forward to `from` and the discount is their reciprocal.
    fn discount_from_to(&self, from: Self::T, to: Self::T) -> (d: Discount<Self::T, Self::V>)
        ensures
            d.reciprocal == (to.instant() < from.instant()),
            d.legs@.len() >= 1,
            self.in_time_order() ==> d@ == self.implied_discount(from, to),
    ;

    /// Merging curves is not defined: the answer is always
    /// `MergeUnsupported`, never a curve.
    fn merge(&self, other: &Self) -> (r: Result<Self, CurveError>)
        ensures
            r == Err::<Self, CurveError>(CurveError::MergeUnsupported),
    ;
}

impl<T: TimePoint, V: Copy> RateCurve for TimeSeries<T, V> {
    type T = T;

    type V = V;

    open spec fn in_time_order(&self) -> bool {
        self.is_sorted()
    }

    /// Forwards in time the discount is the schedule from `from` to `to`.
    /// Backwards it is the reciprocal of the schedule from `to` to `from`.
    open spec fn implied_discount(&self, from: T, to: T) -> DiscountView<T, V> {
        if to.instant() < from.instant() {
            DiscountView { legs: self.forward_legs(to, from), reciprocal: true }
        } else {
            DiscountView { legs: self.forward_legs(from, to), reciprocal: false }
        }
    }

    fn discount_from_to(&self, from: T, to: T) -> (d: Discount<T, V>) {
        if to.earlier_than(&from) {
            Discount { legs: self.legs_between(to, from), reciprocal: true }
        } else {
            Discount { legs: self.legs_between(from, to), reciprocal: false }
        }
    }

    fn merge(&self, other: &Self) -> (r: Result<Self, CurveError>) {
        Err(CurveError::MergeUnsupported)
    }
}

/// Discounting is symmetric: between two different times, the discount one
/// way has the same legs as the discount the other way and is its
/// reciprocal.
pub proof fn lemma_discount_reverses<T: TimePoint, V: Copy>(curve: TimeSeries<T, V>, a: T, b: T)
    requires
        a.instant() != b.instant(),
    ensures
        curve.implied_discount(a, b).legs == curve.implied_discount(b, a).legs,
        curve.implied_discount(a, b).reciprocal != curve.implied_discount(b, a).reciprocal,
{
}

/// An empty curve is flat at zero: between any two times its discount is a
/// single leg without a rate, which compounds to one.
pub proof fn lemma_empty_curve_is_flat<T: TimePoint, V: Copy>(curve: TimeSeries<T, V>, a: T, b: T)
    requires
        curve.data@.len() == 0,
    ensures
        curve.implied_discount(a, b).legs.len() == 1,
        curve.implied_discount(a, b).legs[0].rate is None,
{
    assert(curve.instants() =~= Seq::<int>::empty());
}

/// Whether `legs` tile the span from `from` to `to`: the first begins at
/// `from`, the last ends at `to`, each begins where the one before it ends,
/// none runs backwards, and each carries the elapsed years between its own
/// two ends.
pub open spec fn legs_tile<T: TimePoint, V>(legs: Seq<LegView<T, V>>, from: T, to: T) -> bool {
    &&& legs.len() >= 1
    &&& legs.first().from == from
    &&& legs.last().to == to
    &&& forall|k: int| 0 <= k < legs.len() - 1 ==> (#[trigger] legs[k]).to == legs[k + 1].from
    &&& forall|k: int|
        0 <= k < legs.len() ==> (#[trigger] legs[k]).from.instant() <= legs[k].to.instant()
    &&& forall|k: int|
        0 <= k < legs.len() ==> (#[trigger] legs[k]).years == legs[k].from.spec_years_to(
            &legs[k].to,
        )
}

/// The legs of a sorted curve tile the span between the two times, from
/// the earlier to the later, whichever way the discount runs.
pub proof fn lemma_legs_tile_span<T: TimePoint, V: Copy>(curve: TimeSeries<T, V>, a: T, b: T)
    requires
        curve.is_sorted(),
    ensures
        a.instant() <= b.instant() ==> legs_tile(curve.implied_discount(a, b).legs, a, b),
        b.instant() < a.instant() ==> legs_tile(curve.implied_discount(a, b).legs, b, a),
{
    let from: T = if a.instant() <= b.instant() {
        a
    } else {
        b
    };
    let to: T = if a.instant() <= b.instant() {
        b
    } else {
        a
    };
    let s: Seq<int> = curve.instants();
    let first: int = count_before(s, from.instant());
    let last: int = count_before(s, to.instant());
    lemma_count_before_monotonic(s, from.instant(), to.instant());
    lemma_count_splits(s, from.instant());
    lemma_count_splits(s, to.instant());
    let legs: Seq<LegView<T, V>> = curve.forward_legs(from, to);
    assert forall|k: int| 0 <= k < legs.len() implies (#[trigger] legs[k]).from.instant()
        <= legs[k].to.instant() by {
        if k > 0 {
            assert(s[first + k - 1] == curve.data@[first + k - 1].time.instant());
        }
        if first + k < last {
            assert(s[first + k] == curve.data@[first + k].time.instant());
        }
    }
}

} // verus!
