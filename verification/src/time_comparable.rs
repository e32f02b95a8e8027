//! Comparing things by where they sit in time.

use crate::time_value::Time;
use crate::time_value::TimePoint;
use crate::time_value::TimeValue;
use vstd::prelude::*;

verus! {

/// `a` and `b` are the same position in time.
pub open spec fn spec_is_same_time<T: TimePoint>(a: T, b: T) -> bool {
    a.instant() == b.instant()
}

/// `a` lies strictly before `b`.
pub open spec fn spec_is_before<T: TimePoint>(a: T, b: T) -> bool {
    a.instant() < b.instant()
}

/// `a` lies before `b` or at the same position.
pub open spec fn spec_is_on_or_before<T: TimePoint>(a: T, b: T) -> bool {
    a.instant() <= b.instant()
}

/// `a` lies strictly after `b`.
pub open spec fn spec_is_after<T: TimePoint>(a: T, b: T) -> bool {
    a.instant() > b.instant()
}

/// `a` lies after `b` or at the same position.
pub open spec fn spec_is_on_or_after<T: TimePoint>(a: T, b: T) -> bool {
    a.instant() >= b.instant()
}

/// Comparison by time against anything else that sits in time. Only the
/// two times are read; whatever else either side carries plays no part.
pub trait TimeComparable {
    /// Type for the position in time.
    type T: TimePoint;

    /// The time by which `self` is compared.
    spec fn compared_time(&self) -> Self::T;

    /// Whether `self` sits at the same time as `other`.
    fn is_same_time<TV>(&self, other: &TV) -> (b: bool) where TV: Time<T = Self::T>
        ensures
            b == spec_is_same_time(self.compared_time(), other.spec_time()),
    ;

    /// Whether `self` sits strictly before `other`.
    fn is_before<TV>(&self, other: &TV) -> (b: bool) where TV: Time<T = Self::T>
        ensures
            b == spec_is_before(self.compared_time(), other.spec_time()),
    ;

    /// Whether `self` sits before `other` or at the same time.
    fn is_on_or_before<TV>(&self, other: &TV) -> (b: bool) where TV: Time<T = Self::T>
        ensures
            b == spec_is_on_or_before(self.compared_time(), other.spec_time()),
    ;

    /// Whether `self` sits strictly after `other`.
    fn is_after<TV>(&self, other: &TV) -> (b: bool) where TV: Time<T = Self::T>
        ensures
            b == spec_is_after(self.compared_time(), other.spec_time()),
    ;

    /// Whether `self` sits after `other` or at the same time.
    fn is_on_or_after<TV>(&self, other: &TV) -> (b: bool) where TV: Time<T = Self::T>
        ensures
            b == spec_is_on_or_after(self.compared_time(), other.spec_time()),
    ;
}

/// A time value is compared by the time it carries.
impl<T: TimePoint, V: Copy> TimeComparable for TimeValue<T, V> {
    type T = T;

    open spec fn compared_time(&self) -> T {
        self.time
    }

    fn is_same_time<TV>(&self, other: &TV) -> (b: bool) where TV: Time<T = T> {
        self.time().same_instant(&other.time())
    }

    fn is_before<TV>(&self, other: &TV) -> (b: bool) where TV: Time<T = T> {
        self.time().earlier_than(&other.time())
    }

    fn is_on_or_before<TV>(&self, other: &TV) -> (b: bool) where TV: Time<T = T> {
        !other.time().earlier_than(&self.time())
    }

    fn is_after<TV>(&self, other: &TV) -> (b: bool) where TV: Time<T = T> {
        other.time().earlier_than(&self.time())
    }

    fn is_on_or_after<TV>(&self, other: &TV) -> (b: bool) where TV: Time<T = T> {
        !self.time().earlier_than(&other.time())
    }
}

/// How the five comparisons hang together.
///
/// At equal times `is_same_time` holds, neither strict comparison does, and
/// both inclusive ones do. At different times exactly one of `is_before`
/// and `is_after` holds, and with it the inclusive comparison in the same
/// direction, seen from either side; the inclusive comparison in the other
/// direction fails.
pub proof fn lemma_comparisons_cohere<T: TimePoint>(a: T, b: T)
    ensures
        spec_is_same_time(a, b) ==> !spec_is_before(a, b) && !spec_is_after(a, b)
            && spec_is_on_or_before(a, b) && spec_is_on_or_after(a, b),
        !spec_is_same_time(a, b) ==> spec_is_before(a, b) != spec_is_after(a, b),
        spec_is_before(a, b) ==> spec_is_on_or_before(a, b) && spec_is_on_or_after(b, a)
            && !spec_is_on_or_after(a, b),
        spec_is_after(a, b) ==> spec_is_on_or_after(a, b) && spec_is_on_or_before(b, a)
            && !spec_is_on_or_before(a, b),
        spec_is_before(a, b) == spec_is_after(b, a),
        spec_is_same_time(a, b) == spec_is_same_time(b, a),
{
}

} // verus!
