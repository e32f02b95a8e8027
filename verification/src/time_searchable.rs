//! Range queries by time over a sorted series.

use crate::time_series::count_before;
use crate::time_series::lemma_count_splits;
use crate::time_series::non_decreasing;
use crate::time_series::TimeSeries;
use crate::time_value::TimePoint;
use crate::time_value::TimeValue;
use std::ops::Range;
use vstd::prelude::*;

verus! {

/// Search by time. Every query answers with a half-open range of indices,
/// `start..end`, that holds exactly the entries the query asks for.
///
/// The answers are exact on a timeline that never steps backwards. On any
/// other timeline they are still within `0..=len`, and nothing more is
/// promised.
pub trait TimeSearchable {
    /// Type for the position in time.
    type T: TimePoint;

    /// Type for the entries.
    type TV;

    /// The instants of the entries, in storage order.
    spec fn timeline(&self) -> Seq<int>;

    /// The entries strictly after `time`: from the first such entry to the
    /// end.
    fn after(&self, time: Self::T) -> (r: Range<usize>)
        ensures
            r.start <= r.end,
            r.end == self.timeline().len(),
            non_decreasing(self.timeline()) ==> r.start == count_before(
                self.timeline(),
                time.instant() + 1,
            ),
            non_decreasing(self.timeline()) ==> forall|i: int|
                0 <= i < self.timeline().len() ==> (r.start <= i <==> #[trigger] self.timeline()[i]
                    > time.instant()),
    ;

    /// The entries strictly before `time`: from the start up to the first
    /// entry at or after `time`.
    fn before(&self, time: Self::T) -> (r: Range<usize>)
        ensures
            r.start == 0,
            r.end <= self.timeline().len(),
            non_decreasing(self.timeline()) ==> r.end == count_before(
                self.timeline(),
                time.instant(),
            ),
            non_decreasing(self.timeline()) ==> forall|i: int|
                0 <= i < self.timeline().len() ==> (i < r.end <==> #[trigger] self.timeline()[i]
                    < time.instant()),
    ;

    /// The entries at or after `time`.
    fn on_or_after(&self, time: Self::T) -> (r: Range<usize>)
        ensures
            r.start <= r.end,
            r.end == self.timeline().len(),
            non_decreasing(self.timeline()) ==> r.start == count_before(
                self.timeline(),
                time.instant(),
            ),
            non_decreasing(self.timeline()) ==> forall|i: int|
                0 <= i < self.timeline().len() ==> (r.start <= i <==> #[trigger] self.timeline()[i]
                    >= time.instant()),
    ;

    /// The entries at or before `time`.
    fn on_or_before(&self, time: Self::T) -> (r: Range<usize>)
        ensures
            r.start == 0,
            r.end <= self.timeline().len(),
            non_decreasing(self.timeline()) ==> r.end == count_before(
                self.timeline(),
                time.instant() + 1,
            ),
            non_decreasing(self.timeline()) ==> forall|i: int|
                0 <= i < self.timeline().len() ==> (i < r.end <==> #[trigger] self.timeline()[i]
                    <= time.instant()),
    ;

    /// The entries at or after `range.start` and strictly before
    /// `range.end`: an entry exactly at `range.start` is in, one exactly at
    /// `range.end` is out. Where the bounds are the wrong way round the
    /// answer is an empty range, with `start >= end`.
    fn in_range(&self, range: Range<Self::T>) -> (r: Range<usize>)
        ensures
            r.start <= self.timeline().len(),
            r.end <= self.timeline().len(),
            non_decreasing(self.timeline()) ==> r.start == count_before(
                self.timeline(),
                range.start.instant(),
            ),
            non_decreasing(self.timeline()) ==> r.end == count_before(
                self.timeline(),
                range.end.instant(),
            ),
            non_decreasing(self.timeline()) ==> forall|i: int|
                0 <= i < self.timeline().len() ==> (r.start <= i < r.end <==> range.start.instant()
                    <= #[trigger] self.timeline()[i] < range.end.instant()),
    ;
}

impl<T: TimePoint, V> TimeSearchable for TimeSeries<T, V> {
    type T = T;

    type TV = TimeValue<T, V>;

    open spec fn timeline(&self) -> Seq<int> {
        self.instants()
    }

    fn after(&self, time: T) -> (r: Range<usize>) {
        let start: usize = self.entries_before(&time, true);
        proof {
            if self.is_sorted() {
                lemma_count_splits(self.instants(), time.instant() + 1);
            }
        }
        start..self.data.len()
    }

    fn before(&self, time: T) -> (r: Range<usize>) {
        let end: usize = self.entries_before(&time, false);
        proof {
            if self.is_sorted() {
                lemma_count_splits(self.instants(), time.instant());
            }
        }
        0..end
    }

    fn on_or_after(&self, time: T) -> (r: Range<usize>) {
        let start: usize = self.entries_before(&time, false);
        proof {
            if self.is_sorted() {
                lemma_count_splits(self.instants(), time.instant());
            }
        }
        start..self.data.len()
    }

    fn on_or_before(&self, time: T) -> (r: Range<usize>) {
        let end: usize = self.entries_before(&time, true);
        proof {
            if self.is_sorted() {
                lemma_count_splits(self.instants(), time.instant() + 1);
            }
        }
        0..end
    }

    fn in_range(&self, range: Range<T>) -> (r: Range<usize>) {
        let start: usize = self.on_or_after(range.start).start;
        let end: usize = self.before(range.end).end;
        start..end
    }
}

} // verus!
