//! The formats of FIX timestamps.
use vstd::prelude::*;

use crate::text::str_eq;

verus! {

pub const MICROS_PER_MILLIS: u32 = 1000;

pub const NANOS_PER_MICRO: u32 = 1000;

pub const TICKS_PER_MICROSECOND: u32 = 10;

pub const NANOSECONDS_PER_TICK: u32 = 100;

/// How precisely a timestamp is written.
#[derive(Clone, Copy, Debug, PartialEq, Eq, Structural)]
pub enum DateTimeFormat {
    Nanoseconds,
    Microseconds,
    Milliseconds,
    Seconds,
}

pub open spec fn datetime_format_text(f: DateTimeFormat) -> Seq<char> {
    match f {
        DateTimeFormat::Nanoseconds => "%Y%m%d-%H:%M:%S.%f"@,
        DateTimeFormat::Microseconds => "%Y%m%d-%H:%M:%S.%6f"@,
        DateTimeFormat::Milliseconds => "%Y%m%d-%H:%M:%S.%3f"@,
        DateTimeFormat::Seconds => "%Y%m%d-%H:%M:%S.%3f"@,
    }
}

pub open spec fn time_format_text(f: DateTimeFormat) -> Seq<char> {
    match f {
        DateTimeFormat::Nanoseconds => "%H:%M:%S.%f"@,
        DateTimeFormat::Microseconds => "%H:%M:%S.%6f"@,
        DateTimeFormat::Milliseconds => "%H:%M:%S.%3f"@,
        DateTimeFormat::Seconds => "%H:%M:%S.%3f"@,
    }
}

/// The format named `s`.
pub open spec fn datetime_format_named(s: Seq<char>) -> Option<DateTimeFormat> {
    if s == "Nanoseconds"@ {
        Some(DateTimeFormat::Nanoseconds)
    } else if s == "Microseconds"@ {
        Some(DateTimeFormat::Microseconds)
    } else if s == "Milliseconds"@ {
        Some(DateTimeFormat::Milliseconds)
    } else if s == "Seconds"@ {
        Some(DateTimeFormat::Seconds)
    } else {
        None
    }
}

impl DateTimeFormat {
    /// The `strftime` format of a date and time at this precision (whole
    /// seconds are written with milliseconds).
    pub fn as_datetime_format(&self) -> (r: &'static str)
        ensures
            r@ == datetime_format_text(*self),
    {
        match self {
            DateTimeFormat::Nanoseconds => "%Y%m%d-%H:%M:%S.%f",
            DateTimeFormat::Microseconds => "%Y%m%d-%H:%M:%S.%6f",
            DateTimeFormat::Milliseconds => "%Y%m%d-%H:%M:%S.%3f",
            DateTimeFormat::Seconds => "%Y%m%d-%H:%M:%S.%3f",
        }
    }

    /// The `strftime` format of a time of day at this precision (whole
    /// seconds are written with milliseconds).
    pub fn as_time_format(&self) -> (r: &'static str)
        ensures
            r@ == time_format_text(*self),
    {
        match self {
            DateTimeFormat::Nanoseconds => "%H:%M:%S.%f",
            DateTimeFormat::Microseconds => "%H:%M:%S.%6f",
            DateTimeFormat::Milliseconds => "%H:%M:%S.%3f",
            DateTimeFormat::Seconds => "%H:%M:%S.%3f",
        }
    }

    /// The format named `value`.
    pub fn try_from(value: String) -> (r: Result<Self, &'static str>)
        ensures
            match datetime_format_named(value@) {
                Some(f) => r == Ok::<DateTimeFormat, &'static str>(f),
                None => r is Err,
            },
    {
        let s = value.as_str();
        if str_eq(s, "Nanoseconds") {
            Ok(DateTimeFormat::Nanoseconds)
        } else if str_eq(s, "Microseconds") {
            Ok(DateTimeFormat::Microseconds)
        } else if str_eq(s, "Milliseconds") {
            Ok(DateTimeFormat::Milliseconds)
        } else if str_eq(s, "Seconds") {
            Ok(DateTimeFormat::Seconds)
        } else {
            Err("Valid formats are Nanoseconds, Microseconds, Milliseconds and Seconds.")
        }
    }
}

} // verus!
