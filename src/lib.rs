//! Generation of ordered timestamp sequences between two instants, stepped by a
//! fixed or calendar-aware interval, with a choice of which bounds to include.
pub mod calendar;
pub mod columns;
pub mod duration;
pub mod range;
pub mod types;

pub use columns::{
    date_range, datetime_range_impl, in_nanoseconds_window, time_range, time_range_impl,
    DatetimeColumn, NaiveDateTime, NaiveTime, TimeColumn,
};
pub use duration::Duration;
pub use range::datetime_range_i64;
pub use types::{ClosedWindow, RangeError, TimeUnit};
