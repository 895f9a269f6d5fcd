use vstd::prelude::*;

verus! {

/// Granularity of the epoch integers that represent instants.
#[derive(Clone, Copy, Debug, PartialEq, Eq, Structural)]
pub enum TimeUnit {
    Nanoseconds,
    Microseconds,
    Milliseconds,
}

/// Number of nanoseconds in one unit.
pub open spec fn ns_per_unit(tu: TimeUnit) -> int {
    match tu {
        TimeUnit::Nanoseconds => 1,
        TimeUnit::Microseconds => 1_000,
        TimeUnit::Milliseconds => 1_000_000,
    }
}

/// Number of units in one second.
pub open spec fn units_per_second(tu: TimeUnit) -> int {
    match tu {
        TimeUnit::Nanoseconds => 1_000_000_000,
        TimeUnit::Microseconds => 1_000_000,
        TimeUnit::Milliseconds => 1_000,
    }
}

/// Number of units in one day.
pub open spec fn units_per_day(tu: TimeUnit) -> int {
    86_400 * units_per_second(tu)
}

impl TimeUnit {
    pub fn ns_per_unit(&self) -> (r: i64)
        ensures
            r == ns_per_unit(*self),
    {
        match self {
            TimeUnit::Nanoseconds => 1,
            TimeUnit::Microseconds => 1_000,
            TimeUnit::Milliseconds => 1_000_000,
        }
    }

    pub fn units_per_second(&self) -> (r: i64)
        ensures
            r == units_per_second(*self),
    {
        match self {
            TimeUnit::Nanoseconds => 1_000_000_000,
            TimeUnit::Microseconds => 1_000_000,
            TimeUnit::Milliseconds => 1_000,
        }
    }

    pub fn units_per_day(&self) -> (r: i64)
        ensures
            r == units_per_day(*self),
    {
        86_400 * self.units_per_second()
    }
}

/// Which of the two bounds of a range belong to it.
#[derive(Clone, Copy, Debug, PartialEq, Eq, Structural)]
pub enum ClosedWindow {
    Both,
    Left,
    Right,
    Neither,
}

pub open spec fn includes_start(c: ClosedWindow) -> bool {
    c == ClosedWindow::Both || c == ClosedWindow::Left
}

pub open spec fn includes_end(c: ClosedWindow) -> bool {
    c == ClosedWindow::Both || c == ClosedWindow::Right
}

impl ClosedWindow {
    pub fn includes_start(&self) -> (r: bool)
        ensures
            r == includes_start(*self),
    {
        match self {
            ClosedWindow::Both | ClosedWindow::Left => true,
            ClosedWindow::Right | ClosedWindow::Neither => false,
        }
    }

    pub fn includes_end(&self) -> (r: bool)
        ensures
            r == includes_end(*self),
    {
        match self {
            ClosedWindow::Both | ClosedWindow::Right => true,
            ClosedWindow::Left | ClosedWindow::Neither => false,
        }
    }
}

/// The ways in which generating a range can fail.
#[derive(Clone, Copy, Debug, PartialEq, Eq, Structural)]
pub enum RangeError {
    /// The interval is negative or zero, or does not advance in the requested unit.
    InvalidInterval,
    /// A scaled interval or an instant left the range of `i64`, or of the calendar.
    ArithmeticOverflow,
    /// The time zone is unknown, or a local time is ambiguous or does not exist in it.
    TimezoneResolution,
    /// A date that the calendar does not hold, or a time of day out of its range.
    InvalidDateTime,
}

/// `x` as an `i64`, or an overflow.
pub open spec fn fit_spec(x: int) -> Result<int, RangeError> {
    if i64::MIN <= x <= i64::MAX {
        Ok(x)
    } else {
        Err(RangeError::ArithmeticOverflow)
    }
}

pub fn fit(x: i128) -> (r: Result<i64, RangeError>)
    ensures
        match (r, fit_spec(x as int)) {
            (Ok(a), Ok(b)) => a as int == b,
            (Err(a), Err(b)) => a == b,
            _ => false,
        },
{
    if i64::MIN as i128 <= x && x <= i64::MAX as i128 {
        Ok(x as i64)
    } else {
        Err(RangeError::ArithmeticOverflow)
    }
}

} // verus!
