use chrono::TimeZone;
use chrono::Utc;
use timeseries::DateTime;
use timeseries::Time;
use timeseries::TimePoint;
use timeseries::Years;

const DAY: i64 = 86_400;

fn at(secs: i64, nanos: u32) -> DateTime {
    DateTime::from_timestamp(secs, nanos).unwrap()
}

#[test]
fn from_timestamp_keeps_what_it_was_given() {
    let d = at(1_431_648_000, 123_456_789);
    assert_eq!(d.timestamp(), 1_431_648_000);
    assert_eq!(d.timestamp_subsec_nanos(), 123_456_789);
}

#[test]
fn from_timestamp_accepts_the_range_and_nothing_beyond() {
    assert!(DateTime::from_timestamp(-8_334_601_228_800, 0).is_some());
    assert!(DateTime::from_timestamp(-8_334_601_228_801, 0).is_none());
    assert!(DateTime::from_timestamp(8_210_266_876_799, 999_999_999).is_some());
    assert!(DateTime::from_timestamp(8_210_266_876_800, 0).is_none());
    assert!(DateTime::from_timestamp(0, 1_000_000_000).is_none());
    assert!(DateTime::from_timestamp(59, 1_500_000_000).is_none());
    assert!(DateTime::from_timestamp(i64::MAX, 0).is_none());
    assert!(DateTime::from_timestamp(i64::MIN, 0).is_none());
}

#[test]
fn the_range_is_the_one_in_which_every_calendar_instant_exists() {
    let first = chrono::DateTime::<Utc>::MIN_UTC;
    let last = chrono::DateTime::<Utc>::MAX_UTC;
    assert_eq!(first.timestamp(), -8_334_601_228_800);
    assert_eq!(last.timestamp(), 8_210_266_876_799);
    assert_eq!(at(first.timestamp(), 0).time(), at(-8_334_601_228_800, 0));
}

#[test]
fn years_until_counts_whole_days_back_from_the_other_time() {
    let start = at(0, 0);
    let later = at(400 * DAY, 0);
    assert_eq!(start.years_until(&later), Years { num: -40_000, den: 36_422 });
    assert_eq!(later.years_until(&start), Years { num: 40_000, den: 36_422 });
}

#[test]
fn years_until_drops_the_part_of_a_day_toward_zero() {
    let a = at(0, 0);
    assert_eq!(a.years_until(&at(DAY - 1, 999_999_999)).num, 0);
    assert_eq!(a.years_until(&at(DAY, 0)).num, -100);
    assert_eq!(a.years_until(&at(2 * DAY - 1, 0)).num, -100);
    assert_eq!(at(DAY - 1, 999_999_999).years_until(&a).num, 0);
    assert_eq!(at(DAY, 0).years_until(&a).num, 100);
    assert_eq!(at(-DAY, 1).years_until(&a).num, 0);
    assert_eq!(at(-DAY, 0).years_until(&a).num, -100);
    assert_eq!(at(10, 5).years_until(&at(10, 5)), Years { num: 0, den: 36_422 });
}

#[test]
fn years_until_agrees_with_the_calendar() {
    let a = Utc.with_ymd_and_hms(2016, 2, 28, 12, 0, 0).unwrap();
    let b = Utc.with_ymd_and_hms(2017, 3, 1, 11, 59, 59).unwrap();
    let days = a.signed_duration_since(b).num_days();
    assert_eq!(days, -366);
    let a = at(a.timestamp(), a.timestamp_subsec_nanos());
    let b = at(b.timestamp(), b.timestamp_subsec_nanos());
    assert_eq!(a.years_until(&b), Years { num: -36_600, den: 36_422 });
    assert_eq!(b.years_until(&a), Years { num: 36_600, den: 36_422 });
}

#[test]
fn years_until_across_the_whole_range() {
    let first = at(-8_334_601_228_800, 0);
    let last = at(8_210_266_876_799, 999_999_999);
    let days = (8_210_266_876_799i64 + 8_334_601_228_800i64) / DAY;
    assert_eq!(days, 191_491_528);
    assert_eq!(last.years_until(&first), Years { num: 100 * days, den: 36_422 });
    assert_eq!(first.years_until(&last), Years { num: -100 * days, den: 36_422 });
}

#[test]
fn years_to_and_back_are_opposite() {
    let times = [at(-5 * DAY, 7), at(0, 0), at(3 * DAY + 17, 0), at(1_000 * DAY, 999)];
    for a in times {
        for b in times {
            let there = a.years_to(&b);
            let back = b.years_to(&a);
            assert_eq!(there.num, -back.num);
            assert_eq!(there.den, back.den);
        }
    }
}

#[test]
fn date_times_order_by_instant() {
    assert!(at(1, 0).earlier_than(&at(1, 1)));
    assert!(!at(1, 1).earlier_than(&at(1, 1)));
    assert!(!at(2, 0).earlier_than(&at(1, 999_999_999)));
    assert!(at(1, 1).same_instant(&at(1, 1)));
    assert!(!at(1, 1).same_instant(&at(1, 2)));
    assert!(at(1, 0) < at(1, 1));
    assert!(at(-1, 5) < at(0, 0));
}
