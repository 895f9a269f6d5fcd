use vstd::prelude::*;
use crate::calendar::{epoch_day_from_civil, epoch_day_of_civil, res_int, wide_mul};
use crate::duration::Duration;
use crate::range::{datetime_range_i64, ints, range_outcome, res_seq};
use crate::types::{ClosedWindow, RangeError, TimeUnit, fit, fit_spec, ns_per_unit, units_per_day, units_per_second};

verus! {

/// A calendar date and a time of day, without a time zone.
#[derive(Clone, Copy, Debug, PartialEq, Eq, Structural)]
pub struct NaiveDateTime {
    pub year: i32,
    pub month: u32,
    pub day: u32,
    pub hour: u32,
    pub minute: u32,
    pub second: u32,
    pub nanosecond: u32,
}

/// A time of day.
#[derive(Clone, Copy, Debug, PartialEq, Eq, Structural)]
pub struct NaiveTime {
    pub hour: u32,
    pub minute: u32,
    pub second: u32,
    pub nanosecond: u32,
}

/// A column of datetimes: epoch integers in a unit, an optional time zone and
/// a mark that the values ascend.
#[derive(Debug)]
pub struct DatetimeColumn {
    pub name: String,
    pub values: Vec<i64>,
    pub unit: TimeUnit,
    pub time_zone: Option<String>,
    pub sorted_ascending: bool,
}

/// A column of times of day in nanoseconds since midnight, with a mark that
/// the values ascend.
#[derive(Debug)]
pub struct TimeColumn {
    pub name: String,
    pub values: Vec<i64>,
    pub sorted_ascending: bool,
}

pub open spec fn valid_time(h: int, m: int, s: int, ns: int) -> bool {
    h < 24 && m < 60 && s < 60 && ns < 1_000_000_000
}

/// Nanoseconds since midnight of a time of day.
pub open spec fn time_ns(t: NaiveTime) -> int {
    ((t.hour * 60 + t.minute) * 60 + t.second) * 1_000_000_000 + t.nanosecond
}

/// The epoch integer in the unit `tu` of a date and time read as UTC; the part
/// of a second finer than the unit is dropped.
pub open spec fn epoch_of_spec(dt: NaiveDateTime, tu: TimeUnit) -> Result<int, RangeError> {
    if !valid_time(dt.hour as int, dt.minute as int, dt.second as int, dt.nanosecond as int) {
        Err(RangeError::InvalidDateTime)
    } else {
        match epoch_day_of_civil(dt.year as int, dt.month as int, dt.day as int) {
            None => Err(RangeError::InvalidDateTime),
            Some(day) => fit_spec(
                day * units_per_day(tu) + ((dt.hour * 60 + dt.minute) * 60 + dt.second) * units_per_second(tu)
                    + dt.nanosecond as int / ns_per_unit(tu),
            ),
        }
    }
}

/// Whether the date lies within the years that nanosecond timestamps reach.
pub fn in_nanoseconds_window(ndt: &NaiveDateTime) -> (r: bool)
    ensures
        r == !(ndt.year > 2554 || ndt.year < 1386),
{
    !(ndt.year > 2554 || ndt.year < 1386)
}

/// The epoch integer in the unit `tu` of a date and time read as UTC.
pub fn epoch_of(dt: &NaiveDateTime, tu: TimeUnit) -> (r: Result<i64, RangeError>)
    ensures
        res_int(r) == epoch_of_spec(*dt, tu),
{
    if !(dt.hour < 24 && dt.minute < 60 && dt.second < 60 && dt.nanosecond < 1_000_000_000) {
        return Err(RangeError::InvalidDateTime);
    }
    match epoch_day_from_civil(dt.year, dt.month, dt.day) {
        None => Err(RangeError::InvalidDateTime),
        Some(day) => {
            let secs: i64 = (dt.hour as i64 * 60 + dt.minute as i64) * 60 + dt.second as i64;
            let ups = tu.units_per_second();
            assert(0 <= secs * ups <= 86_400 * 1_000_000_000) by (nonlinear_arith)
                requires
                    0 <= secs < 86_400,
                    0 < ups <= 1_000_000_000,
            ;
            let frac: i64 = dt.nanosecond as i64 / tu.ns_per_unit();
            fit(wide_mul(day as i64, tu.units_per_day()) + (secs * ups) as i128 + frac as i128)
        },
    }
}

/// Nanoseconds since midnight of a time of day.
pub fn time_to_time64ns(t: &NaiveTime) -> (r: i64)
    requires
        valid_time(t.hour as int, t.minute as int, t.second as int, t.nanosecond as int),
    ensures
        r == time_ns(*t),
{
    ((t.hour as i64 * 60 + t.minute as i64) * 60 + t.second as i64) * 1_000_000_000 + t.nanosecond as i64
}

fn zone_str(tz: &Option<String>) -> (r: Option<&str>)
    ensures
        match (tz, r) {
            (Some(a), Some(b)) => a@ == b@,
            (None, None) => true,
            _ => false,
        },
{
    match tz {
        Some(z) => Some(z.as_str()),
        None => None,
    }
}

pub open spec fn opt_view(tz: Option<String>) -> Option<Seq<char>> {
    match tz {
        Some(z) => Some(z@),
        None => None,
    }
}

/// A datetime column of the range from `start` to `end` (epoch integers in the
/// unit `tu`), marked ascending and tagged with the unit and the zone.
pub fn datetime_range_impl(
    name: String,
    start: i64,
    end: i64,
    interval: Duration,
    closed: ClosedWindow,
    tu: TimeUnit,
    tz: Option<String>,
) -> (r: Result<DatetimeColumn, RangeError>)
    ensures
        match r {
            Ok(col) => range_outcome(
                Ok(ints(col.values@)),
                start as int,
                end as int,
                interval,
                closed,
                tu,
                opt_view(tz),
            ) && col.name@ == name@ && col.unit == tu && col.time_zone == tz && col.sorted_ascending,
            Err(e) => range_outcome(Err(e), start as int, end as int, interval, closed, tu, opt_view(tz)),
        },
{
    let values = datetime_range_i64(start, end, interval, closed, tu, zone_str(&tz))?;
    Ok(DatetimeColumn { name, values, unit: tu, time_zone: tz, sorted_ascending: true })
}

/// A datetime column of the range between two dates and times read as UTC.
pub fn date_range(
    name: String,
    start: NaiveDateTime,
    end: NaiveDateTime,
    interval: Duration,
    closed: ClosedWindow,
    tu: TimeUnit,
    tz: Option<String>,
) -> (r: Result<DatetimeColumn, RangeError>)
    ensures
        epoch_of_spec(start, tu) matches Err(e) ==> r == Err::<DatetimeColumn, RangeError>(e),
        epoch_of_spec(start, tu) is Ok ==> (epoch_of_spec(end, tu) matches Err(e) ==> r == Err::<
            DatetimeColumn,
            RangeError,
        >(e)),
        epoch_of_spec(start, tu) matches Ok(s) ==> (epoch_of_spec(end, tu) matches Ok(e) ==> match r {
            Ok(col) => range_outcome(Ok(ints(col.values@)), s, e, interval, closed, tu, opt_view(tz))
                && col.name@ == name@ && col.unit == tu && col.time_zone == tz && col.sorted_ascending,
            Err(err) => range_outcome(Err(err), s, e, interval, closed, tu, opt_view(tz)),
        }),
{
    let s = epoch_of(&start, tu)?;
    let e = epoch_of(&end, tu)?;
    datetime_range_impl(name, s, e, interval, closed, tu, tz)
}

/// A time column of the range from `start` to `end`, in nanoseconds since
/// midnight, marked ascending.
pub fn time_range_impl(
    name: String,
    start: i64,
    end: i64,
    interval: Duration,
    closed: ClosedWindow,
) -> (r: Result<TimeColumn, RangeError>)
    ensures
        match r {
            Ok(col) => range_outcome(
                Ok(ints(col.values@)),
                start as int,
                end as int,
                interval,
                closed,
                TimeUnit::Nanoseconds,
                None,
            ) && col.name@ == name@ && col.sorted_ascending,
            Err(e) => range_outcome(Err(e), start as int, end as int, interval, closed, TimeUnit::Nanoseconds, None),
        },
{
    let values = datetime_range_i64(start, end, interval, closed, TimeUnit::Nanoseconds, None)?;
    Ok(TimeColumn { name, values, sorted_ascending: true })
}

/// A time column of the range between two times of day.
pub fn time_range(
    name: String,
    start: NaiveTime,
    end: NaiveTime,
    interval: Duration,
    closed: ClosedWindow,
) -> (r: Result<TimeColumn, RangeError>)
    ensures
        !valid_time(start.hour as int, start.minute as int, start.second as int, start.nanosecond as int)
            || !valid_time(end.hour as int, end.minute as int, end.second as int, end.nanosecond as int)
            ==> r == Err::<TimeColumn, RangeError>(RangeError::InvalidDateTime),
        valid_time(start.hour as int, start.minute as int, start.second as int, start.nanosecond as int)
            && valid_time(end.hour as int, end.minute as int, end.second as int, end.nanosecond as int)
            ==> match r {
            Ok(col) => range_outcome(
                Ok(ints(col.values@)),
                time_ns(start),
                time_ns(end),
                interval,
                closed,
                TimeUnit::Nanoseconds,
                None,
            ) && col.name@ == name@ && col.sorted_ascending,
            Err(e) => range_outcome(Err(e), time_ns(start), time_ns(end), interval, closed, TimeUnit::Nanoseconds, None),
        },
{
    if !(start.hour < 24 && start.minute < 60 && start.second < 60 && start.nanosecond < 1_000_000_000)
        || !(end.hour < 24 && end.minute < 60 && end.second < 60 && end.nanosecond < 1_000_000_000) {
        return Err(RangeError::InvalidDateTime);
    }
    let s = time_to_time64ns(&start);
    let e = time_to_time64ns(&end);
    time_range_impl(name, s, e, interval, closed)
}

} // verus!
