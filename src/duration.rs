use vstd::prelude::*;

verus! {

/// An interval: calendar components (months, weeks, days), a fixed component in
/// nanoseconds, all held as magnitudes, and a sign.
#[derive(Clone, Copy, Debug, PartialEq, Eq, Structural)]
pub struct Duration {
    pub months: i64,
    pub weeks: i64,
    pub days: i64,
    pub nsecs: i64,
    pub negative: bool,
}

impl Duration {
    pub open spec fn is_zero_spec(&self) -> bool {
        self.months == 0 && self.weeks == 0 && self.days == 0 && self.nsecs == 0
    }

    /// No calendar component: the interval has one length whenever it is applied.
    pub open spec fn is_fixed_spec(&self) -> bool {
        self.months == 0 && self.weeks == 0 && self.days == 0
    }

    /// Positive: not negative, no component below zero, and not zero.
    pub open spec fn is_positive_spec(&self) -> bool {
        !self.negative && self.months >= 0 && self.weeks >= 0 && self.days >= 0
            && self.nsecs >= 0 && !self.is_zero_spec()
    }

    pub fn new(months: i64, weeks: i64, days: i64, nsecs: i64, negative: bool) -> (r: Duration)
        ensures
            r == (Duration { months, weeks, days, nsecs, negative }),
    {
        Duration { months, weeks, days, nsecs, negative }
    }

    pub fn is_zero(&self) -> (r: bool)
        ensures
            r == self.is_zero_spec(),
    {
        self.months == 0 && self.weeks == 0 && self.days == 0 && self.nsecs == 0
    }

    pub fn is_fixed(&self) -> (r: bool)
        ensures
            r == self.is_fixed_spec(),
    {
        self.months == 0 && self.weeks == 0 && self.days == 0
    }

    pub fn is_positive(&self) -> (r: bool)
        ensures
            r == self.is_positive_spec(),
    {
        !self.negative && self.months >= 0 && self.weeks >= 0 && self.days >= 0 && self.nsecs >= 0
            && !self.is_zero()
    }
}

} // verus!
