use polars_time_range::calendar::{add_duration, apply_time_add};
use polars_time_range::columns::{epoch_of, time_to_time64ns};
use polars_time_range::{
    date_range, datetime_range_i64, datetime_range_impl, in_nanoseconds_window, time_range,
    time_range_impl, ClosedWindow, Duration, NaiveDateTime, NaiveTime, RangeError, TimeUnit,
};

const MS_DAY: i64 = 86_400_000;
const ALL: [ClosedWindow; 4] = [
    ClosedWindow::Both,
    ClosedWindow::Left,
    ClosedWindow::Right,
    ClosedWindow::Neither,
];

fn nanos(n: i64) -> Duration {
    Duration::new(0, 0, 0, n, false)
}

fn months(n: i64) -> Duration {
    Duration::new(n, 0, 0, 0, false)
}

fn days(n: i64) -> Duration {
    Duration::new(0, 0, n, 0, false)
}

fn dt(year: i32, month: u32, day: u32) -> NaiveDateTime {
    NaiveDateTime { year, month, day, hour: 0, minute: 0, second: 0, nanosecond: 0 }
}

#[test]
fn fixed_range_closed_modes() {
    let r = |c| datetime_range_i64(0, 10, nanos(2), c, TimeUnit::Nanoseconds, None).unwrap();
    assert_eq!(r(ClosedWindow::Both), vec![0, 2, 4, 6, 8, 10]);
    assert_eq!(r(ClosedWindow::Left), vec![0, 2, 4, 6, 8]);
    assert_eq!(r(ClosedWindow::Right), vec![2, 4, 6, 8, 10]);
    assert_eq!(r(ClosedWindow::Neither), vec![2, 4, 6, 8]);
}

#[test]
fn fixed_range_end_not_on_step() {
    let r = |c| datetime_range_i64(1, 10, nanos(3), c, TimeUnit::Nanoseconds, None).unwrap();
    assert_eq!(r(ClosedWindow::Both), vec![1, 4, 7, 10]);
    let r = |c| datetime_range_i64(0, 10, nanos(3), c, TimeUnit::Nanoseconds, None).unwrap();
    assert_eq!(r(ClosedWindow::Both), vec![0, 3, 6, 9]);
    assert_eq!(r(ClosedWindow::Left), vec![0, 3, 6, 9]);
    assert_eq!(r(ClosedWindow::Right), vec![3, 6, 9]);
    assert_eq!(r(ClosedWindow::Neither), vec![3, 6, 9]);
}

#[test]
fn equal_bounds() {
    let r = |c| datetime_range_i64(5, 5, nanos(2), c, TimeUnit::Nanoseconds, None).unwrap();
    assert_eq!(r(ClosedWindow::Both), vec![5]);
    assert!(r(ClosedWindow::Left).is_empty());
    assert!(r(ClosedWindow::Right).is_empty());
    assert!(r(ClosedWindow::Neither).is_empty());
}

#[test]
fn start_after_end_is_empty() {
    for c in ALL {
        for d in [nanos(2), months(1), nanos(0), Duration::new(0, 0, 0, 2, true)] {
            assert_eq!(datetime_range_i64(10, 0, d, c, TimeUnit::Milliseconds, None), Ok(vec![]));
        }
    }
}

#[test]
fn non_positive_interval_fails() {
    for c in ALL {
        for d in [nanos(0), Duration::new(0, 0, 0, 2, true), Duration::new(1, 0, 0, 0, true)] {
            assert_eq!(
                datetime_range_i64(0, 10, d, c, TimeUnit::Nanoseconds, None),
                Err(RangeError::InvalidInterval)
            );
        }
    }
}

#[test]
fn interval_finer_than_unit_fails() {
    assert_eq!(
        datetime_range_i64(0, 10, nanos(500), ClosedWindow::Both, TimeUnit::Milliseconds, None),
        Err(RangeError::InvalidInterval)
    );
}

#[test]
fn fixed_counts_relation() {
    let n = |c| datetime_range_i64(-7, 23, nanos(5), c, TimeUnit::Nanoseconds, None).unwrap().len();
    let both = n(ClosedWindow::Both);
    assert_eq!(both, 7);
    assert_eq!(both, n(ClosedWindow::Left) + 1);
    assert_eq!(both, n(ClosedWindow::Right) + 1);
    assert_eq!(both, n(ClosedWindow::Neither) + 2);
}

#[test]
fn calendar_month_end_clamps_from_start() {
    let col = date_range(
        "d".to_string(),
        dt(2021, 1, 31),
        dt(2021, 4, 30),
        months(1),
        ClosedWindow::Both,
        TimeUnit::Milliseconds,
        None,
    )
    .unwrap();
    // 2021-01-31, 2021-02-28, 2021-03-31, 2021-04-30 as days since 1970-01-01
    let expected: Vec<i64> = [18658, 18686, 18717, 18747].iter().map(|d| d * MS_DAY).collect();
    assert_eq!(col.values, expected);
    assert!(col.sorted_ascending);
    assert_eq!(col.unit, TimeUnit::Milliseconds);
    assert_eq!(col.name, "d");
}

#[test]
fn calendar_month_into_leap_february() {
    let start = epoch_of(&dt(2024, 1, 31), TimeUnit::Microseconds).unwrap();
    let t = apply_time_add(start, &months(1), 1, TimeUnit::Microseconds, None).unwrap();
    assert_eq!(t, epoch_of(&dt(2024, 2, 29), TimeUnit::Microseconds).unwrap());
    let t = apply_time_add(start, &months(1), 13, TimeUnit::Microseconds, None).unwrap();
    assert_eq!(t, epoch_of(&dt(2025, 2, 28), TimeUnit::Microseconds).unwrap());
    let t = apply_time_add(start, &months(1), -2, TimeUnit::Microseconds, None).unwrap();
    assert_eq!(t, epoch_of(&dt(2023, 11, 30), TimeUnit::Microseconds).unwrap());
}

#[test]
fn calendar_closed_modes() {
    let r = |c| {
        datetime_range_i64(0, 3 * 7 * MS_DAY, Duration::new(0, 1, 0, 0, false), c, TimeUnit::Milliseconds, None)
            .unwrap()
    };
    let w = 7 * MS_DAY;
    assert_eq!(r(ClosedWindow::Both), vec![0, w, 2 * w, 3 * w]);
    assert_eq!(r(ClosedWindow::Left), vec![0, w, 2 * w]);
    assert_eq!(r(ClosedWindow::Right), vec![w, 2 * w, 3 * w]);
    assert_eq!(r(ClosedWindow::Neither), vec![w, 2 * w]);
}

#[test]
fn calendar_days_with_fixed_part() {
    let d = Duration::new(0, 0, 1, 3_600_000_000_000, false);
    let v = datetime_range_i64(0, 3 * MS_DAY, d, ClosedWindow::Both, TimeUnit::Milliseconds, None).unwrap();
    assert_eq!(v, vec![0, MS_DAY + 3_600_000, 2 * MS_DAY + 7_200_000]);
}

#[test]
fn idempotent_calls() {
    for d in [nanos(3 * 3_600_000_000_000), months(2), days(3)] {
        for c in ALL {
            let a = datetime_range_i64(0, 400 * MS_DAY, d, c, TimeUnit::Milliseconds, None);
            let b = datetime_range_i64(0, 400 * MS_DAY, d, c, TimeUnit::Milliseconds, None);
            assert_eq!(a, b);
        }
    }
}

#[test]
fn unit_consistency() {
    let d = nanos(250_000_000);
    for c in ALL {
        let ms = datetime_range_i64(1_000, 5_000, d, c, TimeUnit::Milliseconds, None).unwrap();
        let us = datetime_range_i64(1_000_000, 5_000_000, d, c, TimeUnit::Microseconds, None).unwrap();
        let ns =
            datetime_range_i64(1_000_000_000, 5_000_000_000, d, c, TimeUnit::Nanoseconds, None).unwrap();
        assert_eq!(ms.iter().map(|x| x * 1_000_000).collect::<Vec<_>>(), ns);
        assert_eq!(us.iter().map(|x| x * 1_000).collect::<Vec<_>>(), ns);
        assert!(!ns.is_empty());
    }
}

#[test]
fn strictly_ascending_outputs() {
    for d in [nanos(7 * 3_600_000_000_000), months(1), days(2), Duration::new(0, 1, 1, 5, false)] {
        for c in ALL {
            let v = datetime_range_i64(-50 * MS_DAY, 90 * MS_DAY, d, c, TimeUnit::Milliseconds, None).unwrap();
            assert!(v.windows(2).all(|w| w[0] < w[1]));
        }
    }
}

#[test]
fn time_zone_days_across_dst() {
    let start = 18713 * MS_DAY - 3_600_000;
    let end = 18715 * MS_DAY - 7_200_000;
    let v = datetime_range_i64(
        start,
        end,
        days(1),
        ClosedWindow::Both,
        TimeUnit::Milliseconds,
        Some("Europe/Amsterdam"),
    )
    .unwrap();
    assert_eq!(v, vec![start, 18714 * MS_DAY - 3_600_000, end]);
}

#[test]
fn time_zone_unknown() {
    assert_eq!(
        datetime_range_i64(0, 10 * MS_DAY, days(1), ClosedWindow::Both, TimeUnit::Milliseconds, Some("Nowhere/Atall")),
        Err(RangeError::TimezoneResolution)
    );
}

#[test]
fn time_zone_nonexistent_local_time() {
    // 2021-03-27 02:30 in Amsterdam (UTC+1) plus one day falls in the skipped hour
    let start = 18713 * MS_DAY + 5_400_000;
    assert_eq!(
        datetime_range_i64(start, start + 3 * MS_DAY, days(1), ClosedWindow::Both, TimeUnit::Milliseconds, Some("Europe/Amsterdam")),
        Err(RangeError::TimezoneResolution)
    );
}

#[test]
fn datetime_impl_tags_zone() {
    let col = datetime_range_impl(
        "x".to_string(),
        0,
        2 * MS_DAY,
        days(1),
        ClosedWindow::Both,
        TimeUnit::Milliseconds,
        Some("UTC".to_string()),
    )
    .unwrap();
    assert_eq!(col.values, vec![0, MS_DAY, 2 * MS_DAY]);
    assert_eq!(col.time_zone, Some("UTC".to_string()));
    assert!(col.sorted_ascending);
}

#[test]
fn calendar_overflow() {
    let start = i64::MAX - 10;
    assert_eq!(
        datetime_range_i64(start, i64::MAX, months(1), ClosedWindow::Both, TimeUnit::Nanoseconds, None),
        Err(RangeError::ArithmeticOverflow)
    );
}

#[test]
fn fixed_range_near_i64_limits() {
    let v = datetime_range_i64(i64::MAX - 4, i64::MAX, nanos(2), ClosedWindow::Both, TimeUnit::Nanoseconds, None)
        .unwrap();
    assert_eq!(v, vec![i64::MAX - 4, i64::MAX - 2, i64::MAX]);
    let v = datetime_range_i64(i64::MIN, i64::MAX, nanos(i64::MAX), ClosedWindow::Both, TimeUnit::Nanoseconds, None)
        .unwrap();
    assert_eq!(v, vec![i64::MIN, -1, i64::MAX - 1]);
}

#[test]
fn epoch_of_units() {
    let t = NaiveDateTime { year: 1970, month: 1, day: 2, hour: 1, minute: 2, second: 3, nanosecond: 456_789_123 };
    assert_eq!(epoch_of(&t, TimeUnit::Nanoseconds), Ok(90_123_456_789_123));
    assert_eq!(epoch_of(&t, TimeUnit::Microseconds), Ok(90_123_456_789));
    assert_eq!(epoch_of(&t, TimeUnit::Milliseconds), Ok(90_123_456));
    assert_eq!(epoch_of(&dt(1969, 12, 31), TimeUnit::Milliseconds), Ok(-MS_DAY));
    assert_eq!(epoch_of(&dt(2021, 2, 29), TimeUnit::Milliseconds), Err(RangeError::InvalidDateTime));
    assert_eq!(epoch_of(&dt(3000, 1, 1), TimeUnit::Nanoseconds), Err(RangeError::ArithmeticOverflow));
}

#[test]
fn add_duration_negative() {
    let start = epoch_of(&dt(2021, 3, 31), TimeUnit::Milliseconds).unwrap();
    let back = add_duration(start, &Duration::new(1, 0, 1, 0, true), TimeUnit::Milliseconds, None).unwrap();
    assert_eq!(back, epoch_of(&dt(2021, 2, 27), TimeUnit::Milliseconds).unwrap());
}

#[test]
fn time_range_seconds() {
    let t = |second| NaiveTime { hour: 0, minute: 0, second, nanosecond: 0 };
    let col = time_range("t".to_string(), t(0), t(10), nanos(2_000_000_000), ClosedWindow::Right).unwrap();
    assert_eq!(col.values, vec![2, 4, 6, 8, 10].iter().map(|s| s * 1_000_000_000).collect::<Vec<i64>>());
    assert!(col.sorted_ascending);
    let bad = NaiveTime { hour: 24, minute: 0, second: 0, nanosecond: 0 };
    assert_eq!(time_range("t".to_string(), bad, t(1), nanos(1), ClosedWindow::Both).err(), Some(RangeError::InvalidDateTime));
}

#[test]
fn time_range_impl_nanos() {
    let col = time_range_impl("t".to_string(), 0, 9, nanos(3), ClosedWindow::Neither).unwrap();
    assert_eq!(col.values, vec![3, 6]);
    let noon = NaiveTime { hour: 12, minute: 30, second: 15, nanosecond: 7 };
    assert_eq!(time_to_time64ns(&noon), 45_015_000_000_007);
}

#[test]
fn nanoseconds_window() {
    assert!(in_nanoseconds_window(&dt(2000, 1, 1)));
    assert!(in_nanoseconds_window(&dt(1386, 1, 1)));
    assert!(in_nanoseconds_window(&dt(2554, 12, 31)));
    assert!(!in_nanoseconds_window(&dt(1385, 12, 31)));
    assert!(!in_nanoseconds_window(&dt(2555, 1, 1)));
}
