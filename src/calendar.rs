use vstd::prelude::*;
use vstd::arithmetic::div_mod::{lemma_fundamental_div_mod, lemma_mod_bound};
use chrono::{Datelike, Offset, TimeZone};
use crate::duration::Duration;
use crate::types::{RangeError, TimeUnit, fit, fit_spec, ns_per_unit, units_per_day, units_per_second};

verus! {

/// The proleptic Gregorian date `(year, month, day)` of a day number, with
/// 1970-01-01 as day 0; `None` out of the calendar's range.
pub uninterp spec fn civil_of_epoch_day(day: int) -> Option<(int, int, int)>;

/// The day number, with 1970-01-01 as day 0, of a date; `None` for a date that
/// does not exist or lies out of the calendar's range.
pub uninterp spec fn epoch_day_of_civil(year: int, month: int, day: int) -> Option<int>;

/// Offset from UTC, in seconds, of the named zone at a UTC instant given in
/// seconds; `None` for an unknown zone or an instant out of range.
pub uninterp spec fn zone_offset_at_utc(zone: Seq<char>, utc_secs: int) -> Option<int>;

/// Offset from UTC, in seconds, of the named zone at a wall-clock time given in
/// seconds; `None` for an unknown zone, or a wall-clock time that is ambiguous
/// or does not exist there.
pub uninterp spec fn zone_offset_at_local(zone: Seq<char>, local_secs: int) -> Option<int>;

pub open spec fn opt_int(r: Option<i32>) -> Option<int> {
    match r {
        Some(x) => Some(x as int),
        None => None,
    }
}

pub open spec fn opt_civil(r: Option<(i32, u32, u32)>) -> Option<(int, int, int)> {
    match r {
        Some(c) => Some((c.0 as int, c.1 as int, c.2 as int)),
        None => None,
    }
}

/// An `i64` result seen as an integer result.
pub open spec fn res_int(r: Result<i64, RangeError>) -> Result<int, RangeError> {
    match r {
        Ok(x) => Ok(x as int),
        Err(e) => Err(e),
    }
}

pub open spec fn tz_seq(tz: Option<&str>) -> Option<Seq<char>> {
    match tz {
        Some(z) => Some(z@),
        None => None,
    }
}

/// Relies on chrono's `NaiveDate::from_epoch_days` and its `year`, `month` and
/// `day` accessors: month in 1..=12, day in 1..=31.
#[verifier::external_body]
fn civil_from_epoch_day(day: i32) -> (r: Option<(i32, u32, u32)>)
    ensures
        opt_civil(r) == civil_of_epoch_day(day as int),
        r matches Some(c) ==> 1 <= c.1 <= 12 && 1 <= c.2 <= 31,
{
    let date = chrono::NaiveDate::from_epoch_days(day)?;
    Some((date.year(), date.month(), date.day()))
}

/// Relies on chrono's `NaiveDate::from_ymd_opt` and `NaiveDate::to_epoch_days`.
#[verifier::external_body]
pub(crate) fn epoch_day_from_civil(year: i32, month: u32, day: u32) -> (r: Option<i32>)
    ensures
        opt_int(r) == epoch_day_of_civil(year as int, month as int, day as int),
{
    Some(chrono::NaiveDate::from_ymd_opt(year, month, day)?.to_epoch_days())
}

/// Relies on chrono-tz's zone lookup by name (`Tz::from_str`) and its
/// `TimeZone::offset_from_utc_datetime`, read as seconds east of UTC.
#[verifier::external_body]
fn utc_offset_seconds(zone: &str, utc_secs: i64) -> (r: Option<i32>)
    ensures
        opt_int(r) == zone_offset_at_utc(zone@, utc_secs as int),
{
    let tz: chrono_tz::Tz = zone.parse().ok()?;
    let utc = chrono::DateTime::from_timestamp(utc_secs, 0)?.naive_utc();
    Some(tz.offset_from_utc_datetime(&utc).fix().local_minus_utc())
}

/// Relies on chrono-tz's zone lookup by name (`Tz::from_str`) and its
/// `TimeZone::offset_from_local_datetime`, which tells a single offset from an
/// ambiguous or missing wall-clock time.
#[verifier::external_body]
fn local_offset_seconds(zone: &str, local_secs: i64) -> (r: Option<i32>)
    ensures
        opt_int(r) == zone_offset_at_local(zone@, local_secs as int),
{
    let tz: chrono_tz::Tz = zone.parse().ok()?;
    let local = chrono::DateTime::from_timestamp(local_secs, 0)?.naive_utc();
    match tz.offset_from_local_datetime(&local) {
        chrono::LocalResult::Single(o) => Some(o.fix().local_minus_utc()),
        chrono::LocalResult::Ambiguous(_, _) => None,
        chrono::LocalResult::None => None,
    }
}

pub open spec fn is_leap_year(y: int) -> bool {
    (y % 4 == 0 && y % 100 != 0) || y % 400 == 0
}

/// Number of days of month `m` (1..=12) of year `y`.
pub open spec fn days_in_month(y: int, m: int) -> int {
    if m == 2 {
        if is_leap_year(y) {
            29
        } else {
            28
        }
    } else if m == 4 || m == 6 || m == 9 || m == 11 {
        30
    } else {
        31
    }
}

/// Year and month (1..=12) reached from month `m` of year `y` after `n` months.
pub open spec fn shift_months(y: int, m: int, n: int) -> (int, int) {
    let total = y * 12 + (m - 1) + n;
    (total / 12, total % 12 + 1)
}

pub open spec fn min_int(a: int, b: int) -> int {
    if a <= b {
        a
    } else {
        b
    }
}

/// A timestamp, read on a naive calendar, moved by `n` calendar months: the day
/// of month is kept, or clamped to the last day of the new month, and the time
/// of day is kept.
pub open spec fn add_months_naive_spec(t: int, n: int, tu: TimeUnit) -> Result<int, RangeError> {
    let upd = units_per_day(tu);
    let day = t / upd;
    let tod = t % upd;
    if !(i32::MIN <= day <= i32::MAX) {
        Err(RangeError::ArithmeticOverflow)
    } else {
        match civil_of_epoch_day(day) {
            None => Err(RangeError::ArithmeticOverflow),
            Some(c) => {
                let ym = shift_months(c.0, c.1, n);
                let d = min_int(c.2, days_in_month(ym.0, ym.1));
                if !(i32::MIN <= ym.0 <= i32::MAX) {
                    Err(RangeError::ArithmeticOverflow)
                } else {
                    match epoch_day_of_civil(ym.0, ym.1, d) {
                        None => Err(RangeError::ArithmeticOverflow),
                        Some(e) => fit_spec(e * upd + tod),
                    }
                }
            },
        }
    }
}

/// UTC timestamp to wall-clock timestamp in the zone, if any.
pub open spec fn to_local_spec(t: int, tu: TimeUnit, tz: Option<Seq<char>>) -> Result<int, RangeError> {
    match tz {
        None => Ok(t),
        Some(z) => match zone_offset_at_utc(z, t / units_per_second(tu)) {
            None => Err(RangeError::TimezoneResolution),
            Some(o) => fit_spec(t + o * units_per_second(tu)),
        },
    }
}

/// Wall-clock timestamp in the zone, if any, to UTC timestamp.
pub open spec fn from_local_spec(t: int, tu: TimeUnit, tz: Option<Seq<char>>) -> Result<int, RangeError> {
    match tz {
        None => Ok(t),
        Some(z) => match zone_offset_at_local(z, t / units_per_second(tu)) {
            None => Err(RangeError::TimezoneResolution),
            Some(o) => fit_spec(t - o * units_per_second(tu)),
        },
    }
}

/// Moves `t` by `n` calendar months on the zone's wall clock.
pub open spec fn months_step_spec(t: int, n: int, tu: TimeUnit, tz: Option<Seq<char>>) -> Result<int, RangeError> {
    match to_local_spec(t, tu, tz) {
        Err(e) => Err(e),
        Ok(l) => match add_months_naive_spec(l, n, tu) {
            Err(e) => Err(e),
            Ok(l2) => from_local_spec(l2, tu, tz),
        },
    }
}

/// Moves `t` by `amount` units on the zone's wall clock.
pub open spec fn shift_local_spec(t: int, amount: int, tu: TimeUnit, tz: Option<Seq<char>>) -> Result<int, RangeError> {
    match to_local_spec(t, tu, tz) {
        Err(e) => Err(e),
        Ok(l) => match fit_spec(l + amount) {
            Err(e) => Err(e),
            Ok(l2) => from_local_spec(l2, tu, tz),
        },
    }
}

/// `x` with the sign of the duration `d`.
pub open spec fn signed(d: Duration, x: int) -> int {
    if d.negative {
        -x
    } else {
        x
    }
}

/// The month component of `d` applied to `t`, when above zero.
pub open spec fn months_part_spec(t: int, d: Duration, tu: TimeUnit, tz: Option<Seq<char>>) -> Result<int, RangeError> {
    if d.months > 0 {
        months_step_spec(t, signed(d, d.months as int), tu, tz)
    } else {
        Ok(t)
    }
}

/// The week component of `d` applied to `t`, when above zero.
pub open spec fn weeks_part_spec(t: int, d: Duration, tu: TimeUnit, tz: Option<Seq<char>>) -> Result<int, RangeError> {
    if d.weeks > 0 {
        shift_local_spec(t, signed(d, d.weeks * (7 * units_per_day(tu))), tu, tz)
    } else {
        Ok(t)
    }
}

/// The day component of `d` applied to `t`, when above zero.
pub open spec fn days_part_spec(t: int, d: Duration, tu: TimeUnit, tz: Option<Seq<char>>) -> Result<int, RangeError> {
    if d.days > 0 {
        shift_local_spec(t, signed(d, d.days * units_per_day(tu)), tu, tz)
    } else {
        Ok(t)
    }
}

/// `t` plus the duration `d`: months first, then weeks, then days, each on the
/// zone's wall clock, then the fixed component in absolute time. A component
/// that is not above zero is skipped.
pub open spec fn add_duration_spec(t: int, d: Duration, tu: TimeUnit, tz: Option<Seq<char>>) -> Result<int, RangeError> {
    match months_part_spec(t, d, tu, tz) {
        Err(e) => Err(e),
        Ok(t1) => match weeks_part_spec(t1, d, tu, tz) {
            Err(e) => Err(e),
            Ok(t2) => match days_part_spec(t2, d, tu, tz) {
                Err(e) => Err(e),
                Ok(t3) => fit_spec(t3 + signed(d, d.nsecs as int / ns_per_unit(tu))),
            },
        },
    }
}

proof fn lemma_div_rem(x: int, d: int)
    requires
        d > 0,
    ensures
        x == (x / d) * d + x % d,
        0 <= x % d < d,
        x >= 0 ==> 0 <= x / d <= x,
        x < 0 ==> x <= x / d < 0,
{
    lemma_fundamental_div_mod(x, d);
    lemma_mod_bound(x, d);
    let q = x / d;
    let r = x % d;
    assert(x >= 0 ==> 0 <= q <= x) by (nonlinear_arith)
        requires
            x == d * q + r,
            0 <= r < d,
            d > 0,
    ;
    assert(x < 0 ==> x <= q < 0) by (nonlinear_arith)
        requires
            x == d * q + r,
            0 <= r < d,
            d > 0,
    ;
    assert(x == q * d + r) by (nonlinear_arith)
        requires
            x == d * q + r,
    ;
}

/// `t / d` rounded toward minus infinity, for `d > 0`.
fn floor_div(t: i64, d: i64) -> (r: i64)
    requires
        d > 0,
    ensures
        r as int == t as int / d as int,
{
    proof {
        lemma_div_rem(t as int, d as int);
    }
    match t.checked_div_euclid(d) {
        Some(q) => q,
        None => 0,
    }
}

fn to_local(t: i64, tu: TimeUnit, tz: Option<&str>) -> (r: Result<i64, RangeError>)
    ensures
        res_int(r) == to_local_spec(t as int, tu, tz_seq(tz)),
{
    match tz {
        None => Ok(t),
        Some(z) => {
            let ups = tu.units_per_second();
            match utc_offset_seconds(z, floor_div(t, ups)) {
                None => Err(RangeError::TimezoneResolution),
                Some(o) => fit(t as i128 + wide_mul(o as i64, ups)),
            }
        },
    }
}

fn from_local(t: i64, tu: TimeUnit, tz: Option<&str>) -> (r: Result<i64, RangeError>)
    ensures
        res_int(r) == from_local_spec(t as int, tu, tz_seq(tz)),
{
    match tz {
        None => Ok(t),
        Some(z) => {
            let ups = tu.units_per_second();
            match local_offset_seconds(z, floor_div(t, ups)) {
                None => Err(RangeError::TimezoneResolution),
                Some(o) => fit(t as i128 - wide_mul(o as i64, ups)),
            }
        },
    }
}

/// Length of month `m` (1..=12) of year `y`.
pub fn days_in_month_of(y: i64, m: i64) -> (r: i64)
    requires
        1 <= m <= 12,
    ensures
        r == days_in_month(y as int, m as int),
{
    if m == 2 {
        if (y % 4 == 0 && y % 100 != 0) || y % 400 == 0 {
            29
        } else {
            28
        }
    } else if m == 4 || m == 6 || m == 9 || m == 11 {
        30
    } else {
        31
    }
}

/// The duration `d` taken `i` times: each magnitude multiplied by `|i|`, the
/// sign flipped when `i < 0`; an overflow when a magnitude leaves `i64`.
pub open spec fn scale_spec(d: Duration, i: int) -> Result<Duration, RangeError> {
    let a = if i < 0 {
        -i
    } else {
        i
    };
    let m = d.months * a;
    let w = d.weeks * a;
    let dd = d.days * a;
    let n = d.nsecs * a;
    if fit_spec(m) is Ok && fit_spec(w) is Ok && fit_spec(dd) is Ok && fit_spec(n) is Ok {
        Ok(
            Duration {
                months: m as i64,
                weeks: w as i64,
                days: dd as i64,
                nsecs: n as i64,
                negative: if i < 0 {
                    !d.negative
                } else {
                    d.negative
                },
            },
        )
    } else {
        Err(RangeError::ArithmeticOverflow)
    }
}

/// `start` advanced by `i` times the interval `d`.
#[verifier::opaque]
pub open spec fn offset_spec(start: int, d: Duration, i: int, tu: TimeUnit, tz: Option<Seq<char>>) -> Result<int, RangeError> {
    match scale_spec(d, i) {
        Err(e) => Err(e),
        Ok(s) => add_duration_spec(start, s, tu, tz),
    }
}

/// The exact product of two `i64` values.
pub(crate) fn wide_mul(x: i64, y: i64) -> (r: i128)
    ensures
        r == x * y,
        -0x4000_0000_0000_0000_0000_0000_0000_0000 <= r <= 0x4000_0000_0000_0000_0000_0000_0000_0000,
{
    assert(-0x4000_0000_0000_0000_0000_0000_0000_0000 <= x * y <= 0x4000_0000_0000_0000_0000_0000_0000_0000)
        by (nonlinear_arith)
        requires
            -0x8000_0000_0000_0000 <= x <= 0x7fff_ffff_ffff_ffff,
            -0x8000_0000_0000_0000 <= y <= 0x7fff_ffff_ffff_ffff,
    ;
    x as i128 * y as i128
}

/// Moves a naive timestamp by `n` calendar months, clamping the day of month.
fn add_months_naive(t: i64, n: i64, tu: TimeUnit) -> (r: Result<i64, RangeError>)
    ensures
        res_int(r) == add_months_naive_spec(t as int, n as int, tu),
{
    let upd = tu.units_per_day();
    let day = floor_div(t, upd);
    proof {
        lemma_div_rem(t as int, upd as int);
    }
    let tod: i128 = t as i128 - wide_mul(day, upd);
    assert(tod == t as int % upd as int);
    if day < i32::MIN as i64 || day > i32::MAX as i64 {
        return Err(RangeError::ArithmeticOverflow);
    }
    let c = match civil_from_epoch_day(day as i32) {
        None => {
            return Err(RangeError::ArithmeticOverflow);
        },
        Some(c) => c,
    };
    let total: i128 = c.0 as i128 * 12 + (c.1 as i128 - 1) + n as i128;
    let year: i128 = match total.checked_div_euclid(12) {
        Some(q) => q,
        None => 0,
    };
    proof {
        lemma_div_rem(total as int, 12);
    }
    let month: i128 = total - year * 12 + 1;
    if year < i32::MIN as i128 || year > i32::MAX as i128 {
        return Err(RangeError::ArithmeticOverflow);
    }
    let dim = days_in_month_of(year as i64, month as i64);
    let d: u32 = if (c.2 as i64) <= dim {
        c.2
    } else {
        dim as u32
    };
    match epoch_day_from_civil(year as i32, month as u32, d) {
        None => Err(RangeError::ArithmeticOverflow),
        Some(e) => fit(wide_mul(e as i64, upd) + tod),
    }
}

/// Moves `t` by `n` calendar months on the zone's wall clock.
fn months_step(t: i64, n: i64, tu: TimeUnit, tz: Option<&str>) -> (r: Result<i64, RangeError>)
    ensures
        res_int(r) == months_step_spec(t as int, n as int, tu, tz_seq(tz)),
{
    let l = to_local(t, tu, tz)?;
    let l2 = add_months_naive(l, n, tu)?;
    from_local(l2, tu, tz)
}

/// Moves `t` by `amount` units on the zone's wall clock.
fn shift_local(t: i64, amount: i128, tu: TimeUnit, tz: Option<&str>) -> (r: Result<i64, RangeError>)
    requires
        -0x100_0000_0000_0000_0000_0000_0000_0000 <= amount <= 0x100_0000_0000_0000_0000_0000_0000_0000,
    ensures
        res_int(r) == shift_local_spec(t as int, amount as int, tu, tz_seq(tz)),
{
    let l = to_local(t, tu, tz)?;
    let l2 = fit(l as i128 + amount)?;
    from_local(l2, tu, tz)
}

/// `sign * (k * unit)` for a magnitude `k` and a unit of at most a week in nanoseconds.
fn signed_amount(k: i64, unit: i64, negative: bool) -> (r: i128)
    requires
        0 <= k,
        0 < unit <= 604_800_000_000_000,
    ensures
        r == (if negative {
            -(k * unit)
        } else {
            k * unit
        }),
        -0x100_0000_0000_0000_0000_0000_0000_0000 <= r <= 0x100_0000_0000_0000_0000_0000_0000_0000,
{
    assert(0 <= k * unit <= 0x100_0000_0000_0000_0000_0000_0000_0000) by (nonlinear_arith)
        requires
            0 <= k <= 0x7fff_ffff_ffff_ffff,
            0 < unit <= 604_800_000_000_000,
    ;
    let p: i128 = wide_mul(k, unit);
    if negative {
        -p
    } else {
        p
    }
}

fn months_part(t: i64, d: &Duration, tu: TimeUnit, tz: Option<&str>) -> (r: Result<i64, RangeError>)
    ensures
        res_int(r) == months_part_spec(t as int, *d, tu, tz_seq(tz)),
{
    if d.months > 0 {
        let n: i64 = if d.negative {
            -d.months
        } else {
            d.months
        };
        months_step(t, n, tu, tz)
    } else {
        Ok(t)
    }
}

fn weeks_part(t: i64, d: &Duration, tu: TimeUnit, tz: Option<&str>) -> (r: Result<i64, RangeError>)
    ensures
        res_int(r) == weeks_part_spec(t as int, *d, tu, tz_seq(tz)),
{
    if d.weeks > 0 {
        let amount = signed_amount(d.weeks, 7 * tu.units_per_day(), d.negative);
        shift_local(t, amount, tu, tz)
    } else {
        Ok(t)
    }
}

fn days_part(t: i64, d: &Duration, tu: TimeUnit, tz: Option<&str>) -> (r: Result<i64, RangeError>)
    ensures
        res_int(r) == days_part_spec(t as int, *d, tu, tz_seq(tz)),
{
    if d.days > 0 {
        let amount = signed_amount(d.days, tu.units_per_day(), d.negative);
        shift_local(t, amount, tu, tz)
    } else {
        Ok(t)
    }
}

/// `t` plus the duration `d`, calendar components on the zone's wall clock.
pub fn add_duration(t: i64, d: &Duration, tu: TimeUnit, tz: Option<&str>) -> (r: Result<i64, RangeError>)
    ensures
        res_int(r) == add_duration_spec(t as int, *d, tu, tz_seq(tz)),
{
    let t1 = months_part(t, d, tu, tz)?;
    let t2 = weeks_part(t1, d, tu, tz)?;
    let t3 = days_part(t2, d, tu, tz)?;
    let fixed: i64 = floor_div(d.nsecs, tu.ns_per_unit());
    let fixed_signed: i128 = if d.negative {
        -(fixed as i128)
    } else {
        fixed as i128
    };
    fit(t3 as i128 + fixed_signed)
}

/// `x * a` as an `i64`, or an overflow.
fn mul_fit(x: i64, a: i128) -> (r: Result<i64, RangeError>)
    requires
        0 <= a <= 0x8000_0000_0000_0000,
    ensures
        res_int(r) == fit_spec(x * a),
{
    assert(-0x4000_0000_0000_0000_0000_0000_0000_0000 <= x * a <= 0x4000_0000_0000_0000_0000_0000_0000_0000)
        by (nonlinear_arith)
        requires
            -0x8000_0000_0000_0000 <= x <= 0x7fff_ffff_ffff_ffff,
            0 <= a <= 0x8000_0000_0000_0000,
    ;
    fit(x as i128 * a)
}

/// The duration `d` taken `i` times.
pub fn scale(d: &Duration, i: i64) -> (r: Result<Duration, RangeError>)
    ensures
        match (r, scale_spec(*d, i as int)) {
            (Ok(a), Ok(b)) => a == b,
            (Err(a), Err(b)) => a == b,
            _ => false,
        },
{
    let a: i128 = if i < 0 {
        -(i as i128)
    } else {
        i as i128
    };
    let negative = if i < 0 {
        !d.negative
    } else {
        d.negative
    };
    let months = mul_fit(d.months, a)?;
    let weeks = mul_fit(d.weeks, a)?;
    let days = mul_fit(d.days, a)?;
    let nsecs = mul_fit(d.nsecs, a)?;
    Ok(Duration { months, weeks, days, nsecs, negative })
}

/// `start` advanced by `i` times the interval, in the unit `tu`, calendar
/// components resolved on the wall clock of the zone `tz` when one is given.
pub fn apply_time_add(start: i64, interval: &Duration, i: i64, tu: TimeUnit, tz: Option<&str>) -> (r: Result<i64, RangeError>)
    ensures
        res_int(r) == offset_spec(start as int, *interval, i as int, tu, tz_seq(tz)),
{
    proof {
        reveal(offset_spec);
    }
    let s = scale(interval, i)?;
    add_duration(start, &s, tu, tz)
}

} // verus!
