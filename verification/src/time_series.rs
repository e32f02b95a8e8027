//! Series of time values, and the order-theoretic model that queries on
//! them are stated against.

use crate::date_time::DateTime;
use crate::time_value::TimePoint;
use crate::time_value::TimeValue;
use crate::time_value::Year;
use std::ops::Deref;
use vstd::prelude::*;

verus! {

/// Whether the instants never step backwards.
pub open spec fn non_decreasing(s: Seq<int>) -> bool {
    forall|i: int, j: int| 0 <= i <= j < s.len() ==> s[i] <= s[j]
}

/// How many of the instants in `s` lie strictly before `t`.
pub open spec fn count_before(s: Seq<int>, t: int) -> int
    decreases s.len(),
{
    if s.len() == 0 {
        0
    } else {
        count_before(s.drop_last(), t) + if s.last() < t {
            1int
        } else {
            0int
        }
    }
}

/// If everything before index `k` lies before `t` and nothing from `k` on
/// does, then `k` is the number of instants before `t`.
pub proof fn lemma_split_is_count(s: Seq<int>, t: int, k: int)
    requires
        0 <= k <= s.len(),
        forall|i: int| 0 <= i < k ==> s[i] < t,
        forall|i: int| k <= i < s.len() ==> s[i] >= t,
    ensures
        count_before(s, t) == k,
    decreases s.len(),
{
    if s.len() > 0 {
        let front: Seq<int> = s.drop_last();
        if k == s.len() {
            lemma_split_is_count(front, t, k - 1);
        } else {
            lemma_split_is_count(front, t, k);
        }
    }
}

/// In a series that never steps backwards, the instants before `t` are
/// exactly the first `count_before(s, t)` entries.
pub proof fn lemma_count_splits(s: Seq<int>, t: int)
    requires
        non_decreasing(s),
    ensures
        0 <= count_before(s, t) <= s.len(),
        forall|i: int| 0 <= i < s.len() ==> (i < count_before(s, t) <==> #[trigger] s[i] < t),
    decreases s.len(),
{
    if s.len() > 0 {
        let front: Seq<int> = s.drop_last();
        lemma_count_splits(front, t);
        assert forall|i: int| 0 <= i < s.len() implies (i < count_before(s, t) <==> #[trigger] s[i]
            < t) by {
            if i < front.len() {
                assert(front[i] == s[i]);
                if s[i] >= t {
                    assert(s[i] <= s.last());
                }
            } else {
                if s.last() < t {
                    assert forall|j: int| 0 <= j < front.len() implies front[j] < t by {
                        assert(s[j] <= s.last());
                    }
                    lemma_split_is_count(front, t, front.len() as int);
                }
            }
        }
    }
}

/// The more instants a bound admits, the more it counts.
pub proof fn lemma_count_before_monotonic(s: Seq<int>, t1: int, t2: int)
    requires
        t1 <= t2,
    ensures
        count_before(s, t1) <= count_before(s, t2),
    decreases s.len(),
{
    if s.len() > 0 {
        lemma_count_before_monotonic(s.drop_last(), t1, t2);
    }
}

/// An ordered collection of time values: a rate curve, a price history.
///
/// Queries assume that `data` is sorted by time, earliest first, with
/// equal times allowed. The type does not enforce this; `is_sorted` states
/// it and `check_sorted` tests it.
#[derive(Debug)]
pub struct TimeSeries<T, V> {
    /// The entries, in time order.
    pub data: Vec<TimeValue<T, V>>,
}

/// A series over years.
pub type YearTimeSeries<V> = TimeSeries<Year, V>;

/// A series over dates and times.
pub type DateTimeSeries<V> = TimeSeries<DateTime, V>;

impl<T: TimePoint, V> TimeSeries<T, V> {
    /// The instants of the entries, in storage order.
    pub open spec fn instants(&self) -> Seq<int> {
        Seq::new(self.data@.len(), |i: int| self.data@[i].time.instant())
    }

    /// The series is in time order: no entry lies before its predecessor.
    pub open spec fn is_sorted(&self) -> bool {
        non_decreasing(self.instants())
    }

    /// Tests whether the series is in time order.
    pub fn check_sorted(&self) -> (b: bool)
        ensures
            b == self.is_sorted(),
    {
        let n: usize = self.data.len();
        if n == 0 {
            return true;
        }
        let mut i: usize = 1;
        while i < n
            invariant
                1 <= i <= n,
                n == self.data@.len(),
                forall|a: int, b: int| 0 <= a <= b < i ==> self.instants()[a] <= self.instants()[b],
            decreases n - i,
        {
            if self.data[i].time.earlier_than(&self.data[i - 1].time) {
                assert(self.instants()[i as int] < self.instants()[i - 1]);
                return false;
            }
            assert forall|a: int, b: int| 0 <= a <= b < i + 1 implies self.instants()[a]
                <= self.instants()[b] by {
                if b == i && a < i {
                    assert(self.instants()[a] <= self.instants()[i - 1]);
                }
            }
            i = i + 1;
        }
        true
    }

    /// Number of leading entries that lie before `time`. With `through`
    /// set, entries at `time` itself count as well.
    ///
    /// On a sorted series this is a binary search; on any series the result
    /// is within bounds.
    pub fn entries_before(&self, time: &T, through: bool) -> (k: usize)
        ensures
            k <= self.data@.len(),
            self.is_sorted() ==> k == count_before(
                self.instants(),
                if through {
                    time.instant() + 1
                } else {
                    time.instant()
                },
            ),
    {
        let ghost bound: int = if through {
            time.instant() + 1
        } else {
            time.instant()
        };
        let mut lo: usize = 0;
        let mut hi: usize = self.data.len();
        while lo < hi
            invariant
                lo <= hi <= self.data@.len(),
                bound == if through {
                    time.instant() + 1
                } else {
                    time.instant()
                },
                self.is_sorted() ==> forall|i: int| 0 <= i < lo ==> self.instants()[i] < bound,
                self.is_sorted() ==> forall|i: int|
                    hi <= i < self.data@.len() ==> self.instants()[i] >= bound,
            decreases hi - lo,
        {
            let mid: usize = lo + (hi - lo) / 2;
            let at: T = self.data[mid].time;
            let below: bool = if through {
                !time.earlier_than(&at)
            } else {
                at.earlier_than(time)
            };
            assert(below == (self.instants()[mid as int] < bound));
            if below {
                lo = mid + 1;
            } else {
                hi = mid;
            }
        }
        proof {
            if self.is_sorted() {
                lemma_split_is_count(self.instants(), bound, lo as int);
            }
        }
        lo
    }
}

impl<T, V> Deref for TimeSeries<T, V> {
    type Target = Vec<TimeValue<T, V>>;

    /// The entries themselves.
    fn deref(&self) -> (entries: &Vec<TimeValue<T, V>>)
        ensures
            *entries == self.data,
    {
        &self.data
    }
}

impl<T, V> Default for TimeSeries<T, V> {
    /// The empty series.
    fn default() -> (s: Self)
        ensures
            s.data@.len() == 0,
    {
        TimeSeries { data: Vec::new() }
    }
}

} // verus!
