use timeseries::TimeSearchable;
use timeseries::TimeSeries;
use timeseries::TimeValue;
use timeseries::Year;

fn v() -> TimeSeries<Year, f64> {
    TimeSeries {
        data: vec![
            TimeValue { time: 1, value: 1.0 },
            TimeValue { time: 2, value: 2.0 },
            TimeValue { time: 4, value: 3.0 },
            TimeValue { time: 5, value: 4.0 },
        ],
    }
}

fn series_of(times: &[Year]) -> TimeSeries<Year, u32> {
    TimeSeries { data: times.iter().map(|t| TimeValue { time: *t, value: 0 }).collect() }
}

#[test]
fn after() {
    let v = v();
    assert_eq!(v.after(1), 1..v.len());
    assert_eq!(v.after(2), 2..v.len());
    assert_eq!(v.after(3), 2..v.len());
}

#[test]
fn before() {
    let v = v();
    assert_eq!(v.before(1), 0..0);
    assert_eq!(v.before(2), 0..1);
    assert_eq!(v.before(3), 0..2);
}

#[test]
fn on_or_after() {
    let v = v();
    assert_eq!(v.on_or_after(1), 0..v.len());
    assert_eq!(v.on_or_after(2), 1..v.len());
    assert_eq!(v.on_or_after(3), 2..v.len());
}

#[test]
fn on_or_before() {
    let v = v();
    assert_eq!(v.on_or_before(1), 0..1);
    assert_eq!(v.on_or_before(2), 0..2);
    assert_eq!(v.on_or_before(3), 0..2);
}

#[test]
fn in_range() {
    let v = v();
    assert_eq!(v.in_range(0..0), 0..0);
    assert_eq!(v.in_range(1..1), 0..0);
    assert_eq!(v.in_range(1..2), 0..1);
    assert_eq!(v.in_range(1..8), 0..4);
    assert_eq!(v.in_range(2..2), 1..1);
    assert_eq!(v.in_range(2..3), 1..2);
    assert_eq!(v.in_range(2..4), 1..2);
    assert_eq!(v.in_range(2..6), 1..4);
}

#[test]
fn range_queries_are_exact_at_every_boundary() {
    let v = v();
    assert_eq!(v.after(1), 1..4);
    assert_eq!(v.after(2), 2..4);
    assert_eq!(v.after(3), 2..4);
    assert_eq!(v.before(1), 0..0);
    assert_eq!(v.before(2), 0..1);
    assert_eq!(v.before(3), 0..2);
    assert_eq!(v.on_or_after(2), 1..4);
    assert_eq!(v.on_or_before(2), 0..2);
}

#[test]
fn queries_beyond_either_end() {
    let v = v();
    assert_eq!(v.after(0), 0..4);
    assert_eq!(v.after(5), 4..4);
    assert_eq!(v.after(9), 4..4);
    assert_eq!(v.before(0), 0..0);
    assert_eq!(v.before(5), 0..3);
    assert_eq!(v.before(9), 0..4);
    assert_eq!(v.on_or_after(0), 0..4);
    assert_eq!(v.on_or_after(5), 3..4);
    assert_eq!(v.on_or_after(6), 4..4);
    assert_eq!(v.on_or_before(0), 0..0);
    assert_eq!(v.on_or_before(5), 0..4);
    assert_eq!(v.on_or_before(4), 0..3);
}

#[test]
fn queries_on_an_empty_series() {
    let empty = series_of(&[]);
    assert_eq!(empty.len(), 0);
    assert_eq!(empty.after(3), 0..0);
    assert_eq!(empty.before(3), 0..0);
    assert_eq!(empty.on_or_after(3), 0..0);
    assert_eq!(empty.on_or_before(3), 0..0);
    assert_eq!(empty.in_range(1..9), 0..0);
}

#[test]
fn equal_times_fall_on_one_side_together() {
    let s = series_of(&[1, 3, 3, 3, 7]);
    assert_eq!(s.before(3), 0..1);
    assert_eq!(s.on_or_before(3), 0..4);
    assert_eq!(s.on_or_after(3), 1..5);
    assert_eq!(s.after(3), 4..5);
    assert_eq!(s.in_range(3..7), 1..4);
    assert_eq!(s.in_range(3..8), 1..5);
    assert_eq!(s.in_range(4..7), 4..4);
}

#[test]
fn in_range_is_on_or_after_start_and_before_end() {
    let s = series_of(&[-4, -1, 0, 2, 2, 6, 9, 9, 12]);
    for lo in -6..15 {
        for hi in -6..15 {
            let r = s.in_range(lo..hi);
            assert_eq!(r.start, s.on_or_after(lo).start);
            assert_eq!(r.end, s.before(hi).end);
            for (i, entry) in s.data.iter().enumerate() {
                assert_eq!(r.contains(&i), lo <= entry.time && entry.time < hi);
            }
        }
    }
}

#[test]
fn in_range_with_bounds_the_wrong_way_round_is_empty() {
    let v = v();
    let r = v.in_range(5..1);
    assert_eq!(r, 3..0);
    assert!(r.is_empty());
}

#[test]
fn every_query_holds_exactly_what_it_names() {
    let s = series_of(&[-4, -1, 0, 2, 2, 6, 9, 9, 12]);
    for t in -6..15 {
        let after = s.after(t);
        let before = s.before(t);
        let on_or_after = s.on_or_after(t);
        let on_or_before = s.on_or_before(t);
        for (i, entry) in s.data.iter().enumerate() {
            assert_eq!(after.contains(&i), entry.time > t);
            assert_eq!(before.contains(&i), entry.time < t);
            assert_eq!(on_or_after.contains(&i), entry.time >= t);
            assert_eq!(on_or_before.contains(&i), entry.time <= t);
        }
    }
}

#[test]
fn an_unsorted_series_still_answers_within_bounds() {
    let s = series_of(&[9, 1, 7, 3, 5, 2]);
    assert!(!s.check_sorted());
    for t in 0..11 {
        assert!(s.after(t).start <= 6);
        assert_eq!(s.after(t).end, 6);
        assert!(s.before(t).end <= 6);
        assert!(s.in_range(t..10).start <= 6);
        assert!(s.in_range(0..t).end <= 6);
    }
}

#[test]
fn check_sorted_accepts_ties_and_rejects_a_step_back() {
    assert!(series_of(&[]).check_sorted());
    assert!(series_of(&[4]).check_sorted());
    assert!(series_of(&[1, 2, 2, 3]).check_sorted());
    assert!(!series_of(&[1, 3, 2]).check_sorted());
    assert!(!series_of(&[2, 1]).check_sorted());
}

#[test]
fn entries_before_counts_with_and_without_the_time_itself() {
    let s = series_of(&[1, 3, 3, 3, 7]);
    assert_eq!(s.entries_before(&3, false), 1);
    assert_eq!(s.entries_before(&3, true), 4);
    assert_eq!(s.entries_before(&0, true), 0);
    assert_eq!(s.entries_before(&8, false), 5);
}
