//! When a session runs: always, daily between two times, or weekly between
//! two days and times.
use vstd::prelude::*;

use chrono::{Datelike, Timelike};

use crate::session::settings::builder::{opt_view, ref_view, timezone_known};

verus! {

/// A time of day: the seconds since midnight and the nanoseconds within the
/// second (a leap second has more than 999 999 999).
#[derive(Debug, Clone, Copy, PartialEq, Eq, Structural)]
pub struct TimeOfDay {
    pub secs: u32,
    pub nanos: u32,
}

/// Whether `a` comes before `b`, or is `b`.
pub open spec fn time_le(a: TimeOfDay, b: TimeOfDay) -> bool {
    a.secs < b.secs || (a.secs == b.secs && a.nanos <= b.nanos)
}

/// Whether `a` comes before `b`.
pub open spec fn time_lt(a: TimeOfDay, b: TimeOfDay) -> bool {
    a.secs < b.secs || (a.secs == b.secs && a.nanos < b.nanos)
}

impl TimeOfDay {
    pub fn le(&self, other: &TimeOfDay) -> (r: bool)
        ensures
            r == time_le(*self, *other),
    {
        self.secs < other.secs || (self.secs == other.secs && self.nanos <= other.nanos)
    }

    pub fn lt(&self, other: &TimeOfDay) -> (r: bool)
        ensures
            r == time_lt(*self, *other),
    {
        self.secs < other.secs || (self.secs == other.secs && self.nanos < other.nanos)
    }
}

/// The largest number of seconds, before or after 1970, of an instant that
/// a schedule is asked about: within the range of chrono's dates (years
/// -262143 to 262142, some 8.27 * 10^12 seconds each way), with room for a
/// time zone's offset.
pub const UTC_SECS_BOUND: i64 = 8_000_000_000_000;

/// An instant: the seconds since 1970-01-01 00:00:00 UTC and the
/// nanoseconds within the second.
#[derive(Debug, Clone, Copy, PartialEq, Eq, Structural)]
pub struct UtcTime {
    pub secs: i64,
    pub nanos: u32,
}

/// An instant some 250 000 years around 1970 at most, with fewer than a
/// second of nanoseconds.
pub open spec fn utc_time_ok(t: UtcTime) -> bool {
    -UTC_SECS_BOUND <= t.secs <= UTC_SECS_BOUND && t.nanos < 1_000_000_000
}

/// Whether `a` comes before `b`.
pub open spec fn utc_before(a: UtcTime, b: UtcTime) -> bool {
    a.secs < b.secs || (a.secs == b.secs && a.nanos < b.nanos)
}

/// The day of the week, Monday 0 to Sunday 6, of the instant `secs`
/// seconds after 1970-01-01 00:00:00 UTC, a Thursday.
pub open spec fn utc_weekday(secs: int) -> u8 {
    ((secs / 86400 + 3) % 7) as u8
}

/// The time of day of `t` in UTC.
pub open spec fn utc_time_of_day(t: UtcTime) -> TimeOfDay {
    TimeOfDay { secs: (t.secs % 86400) as u32, nanos: t.nanos }
}

/// The day of the week and the time of day that chrono gives for the
/// instant `secs` seconds and `nanos` nanoseconds after 1970 in the time
/// zone `tz` of chrono-tz.
pub uninterp spec fn zone_local_time(tz: Seq<char>, secs: int, nanos: int) -> (u8, TimeOfDay);

/// `DateTime::from_timestamp(secs, nanos)` read in UTC with
/// `naive_utc()`: the day of the week (from Monday, 0) and the time of day.
/// Within `UTC_SECS_BOUND` and under a second of nanoseconds, chrono
/// represents the instant, so the call gives a date.
#[verifier::external_body]
fn utc_local(t: UtcTime) -> (r: (u8, TimeOfDay))
    requires
        utc_time_ok(t),
    ensures
        r == (utc_weekday(t.secs as int), utc_time_of_day(t)),
{
    let n = chrono::DateTime::from_timestamp(t.secs, t.nanos).unwrap().naive_utc();
    (n.weekday().num_days_from_monday() as u8, TimeOfDay { secs: n.num_seconds_from_midnight(), nanos: n.nanosecond() })
}

/// `DateTime::from_timestamp(secs, nanos).with_timezone(&z).naive_local()`
/// for the time zone `z` that chrono-tz reads from `tz`: the day of the week
/// (from Monday, 0) and the time of day there; none where chrono-tz knows no
/// such zone.
#[verifier::external_body]
fn zone_local(tz: &str, t: UtcTime) -> (r: Option<(u8, TimeOfDay)>)
    requires
        utc_time_ok(t),
    ensures
        r == (if timezone_known(tz@) {
            Some(zone_local_time(tz@, t.secs as int, t.nanos as int))
        } else {
            None
        }),
{
    match tz.parse::<chrono_tz::Tz>() {
        Err(_) => None,
        Ok(z) => {
            let n = chrono::DateTime::from_timestamp(t.secs, t.nanos).unwrap().with_timezone(&z).naive_local();
            Some((n.weekday().num_days_from_monday() as u8, TimeOfDay { secs: n.num_seconds_from_midnight(), nanos: n.nanosecond() }))
        },
    }
}

/// When a session runs. Days count from Monday (0) to Sunday (6); a time
/// zone is given by its name in chrono-tz.
#[derive(Debug, Clone, PartialEq, Eq)]
pub enum SessionSchedule {
    NonStop,
    Weekly {
        start_day: u8,
        end_day: u8,
        start_time: TimeOfDay,
        end_time: TimeOfDay,
        timezone: Option<String>,
        use_localtime: bool,
    },
    Daily { start_time: TimeOfDay, end_time: TimeOfDay, timezone: Option<String>, use_localtime: bool },
}

/// The times that bound a session's day: from the start to the end time
/// for a daily schedule; a weekly one bounds its days by its start time on
/// both sides.
pub open spec fn day_bounds(s: SessionSchedule) -> (TimeOfDay, TimeOfDay) {
    match s {
        SessionSchedule::Weekly { start_time, .. } => (start_time, start_time),
        SessionSchedule::Daily { start_time, end_time, .. } => (start_time, end_time),
        SessionSchedule::NonStop => (TimeOfDay { secs: 0, nanos: 0 }, TimeOfDay { secs: 0, nanos: 0 }),
    }
}

/// Whether `time` lies in the session's day: between the bounds, or, where
/// the end comes first, outside them; any time where they are equal.
pub open spec fn in_day(s: SessionSchedule, time: TimeOfDay) -> bool {
    let (start, end) = day_bounds(s);
    if time_lt(start, end) {
        time_le(start, time) && time_le(time, end)
    } else if time_lt(end, start) {
        time_le(start, time) || time_le(time, end)
    } else {
        true
    }
}

/// Whether the day `day` at `time` lies in the session's week.
pub open spec fn in_week(s: SessionSchedule, day: u8, time: TimeOfDay) -> bool {
    match s {
        SessionSchedule::Weekly { start_day, end_day, start_time, end_time, .. } => if start_day < end_day {
            if day < start_day || day > end_day {
                false
            } else if day < end_day {
                start_day < day || time_le(start_time, time)
            } else {
                end_day > day || time_le(time, end_time)
            }
        } else if time_le(end_time, start_time) {
            day != start_day || in_day(s, time)
        } else {
            day == start_day && in_day(s, time)
        },
        _ => false,
    }
}

/// The day and time that a schedule reads an instant at: in its time zone
/// where it has one that chrono-tz knows and it does not ask for local time,
/// else in UTC (the local time of a UTC instant being its UTC time).
pub open spec fn adjusted_time(s: SessionSchedule, t: UtcTime) -> (u8, TimeOfDay) {
    let utc = (utc_weekday(t.secs as int), utc_time_of_day(t));
    match s {
        SessionSchedule::NonStop => utc,
        SessionSchedule::Weekly { timezone, use_localtime, .. } | SessionSchedule::Daily {
            timezone,
            use_localtime,
            ..
        } => if use_localtime {
            utc
        } else {
            match timezone {
                Some(z) => if timezone_known(z@) {
                    zone_local_time(z@, t.secs as int, t.nanos as int)
                } else {
                    utc
                },
                None => utc,
            }
        },
    }
}

/// Whether the session runs at `t`.
pub open spec fn session_time(s: SessionSchedule, t: UtcTime) -> bool {
    let (day, time) = adjusted_time(s, t);
    match s {
        SessionSchedule::NonStop => true,
        SessionSchedule::Weekly { .. } => in_week(s, day, time),
        SessionSchedule::Daily { .. } => in_day(s, time),
    }
}

/// The days from the day `from` to the next day `to`, or 0 where they are
/// the same.
pub open spec fn days_until(from: u8, to: u8) -> int {
    (to - from) % 7
}

/// The end of the session that runs at `t`: the first instant at the time
/// of day of `t` on the end day, from `t` on, for a weekly schedule; `t`
/// itself for a daily one.
pub open spec fn session_end(s: SessionSchedule, t: UtcTime) -> UtcTime {
    match s {
        SessionSchedule::Weekly { end_day, .. } => UtcTime {
            secs: (t.secs + 86400 * days_until(utc_weekday(t.secs as int), end_day)) as i64,
            nanos: t.nanos,
        },
        _ => t,
    }
}

/// Whether a new session began between `old` and `test`: never for a
/// non-stop schedule; else where `old` comes before `test` and the end of
/// the session of `old` comes before `test`.
pub open spec fn new_session(s: SessionSchedule, old: UtcTime, test: UtcTime) -> bool {
    match s {
        SessionSchedule::NonStop => false,
        _ => utc_before(old, test) && !utc_before(session_end(s, old), old) && utc_before(session_end(s, old), test),
    }
}

/// A non-stop session runs at every instant and never begins anew.
pub proof fn law_non_stop(t: UtcTime, old: UtcTime, test: UtcTime)
    ensures
        session_time(SessionSchedule::NonStop, t),
        !new_session(SessionSchedule::NonStop, old, test),
{
}

/// A weekly session whose start day comes before its end day runs, in the
/// day and time at which the schedule reads an instant: on its start day
/// from its start time on, all day on each day in between, and on its end
/// day up to its end time; at no other time of the week.
pub proof fn law_weekly_session_time(s: SessionSchedule, t: UtcTime)
    requires
        s is Weekly,
        s->start_day < s->end_day,
    ensures
        ({
            let (day, time) = adjusted_time(s, t);
            session_time(s, t) == ((s->start_day < day && day < s->end_day) || (day == s->start_day && time_le(
                s->Weekly_start_time,
                time,
            )) || (day == s->end_day && time_le(time, s->Weekly_end_time)))
        }),
{
}

/// A weekly session whose start day is not before its end day runs at every
/// instant where its end time does not come after its start time, and
/// otherwise exactly on its start day.
pub proof fn law_weekly_wrapping_session_time(s: SessionSchedule, t: UtcTime)
    requires
        s is Weekly,
        s->start_day >= s->end_day,
    ensures
        session_time(s, t) == (time_le(s->Weekly_end_time, s->Weekly_start_time) || adjusted_time(s, t).0
            == s->start_day),
{
}

/// A daily session runs, in the time of day at which the schedule reads an
/// instant, from its start time to its end time; across midnight where the
/// end time comes first; all day where they are the same.
pub proof fn law_daily_session_time(s: SessionSchedule, t: UtcTime)
    requires
        s is Daily,
    ensures
        ({
            let time = adjusted_time(s, t).1;
            let start = s->Daily_start_time;
            let end = s->Daily_end_time;
            session_time(s, t) == if start == end {
                true
            } else if time_lt(start, end) {
                time_le(start, time) && time_le(time, end)
            } else {
                time_le(start, time) || time_le(time, end)
            }
        }),
{
}

/// A daily session's end is the instant it is asked about, so every later
/// instant begins a new session.
pub proof fn law_daily_new_session(s: SessionSchedule, old: UtcTime, test: UtcTime)
    requires
        s is Daily,
    ensures
        new_session(s, old, test) == utc_before(old, test),
{
}

/// A weekly session ends on its end day, at the time of day it was asked
/// about, at most six days later.
pub proof fn law_weekly_end(s: SessionSchedule, t: UtcTime)
    requires
        s.wf(),
        s is Weekly,
        utc_time_ok(t),
    ensures
        utc_weekday(session_end(s, t).secs as int) == s->end_day,
        session_end(s, t).secs - t.secs == 86400 * days_until(utc_weekday(t.secs as int), s->end_day),
        0 <= days_until(utc_weekday(t.secs as int), s->end_day) < 7,
        session_end(s, t).nanos == t.nanos,
{
    let d = days_until(utc_weekday(t.secs as int), s->end_day);
    let w = utc_weekday(t.secs as int);
    assert(0 <= (t.secs as int / 86400 + 3) % 7 < 7);
    assert((t.secs + 86400 * d) / 86400 == t.secs / 86400 + d) by {
        lemma_div_shift(t.secs as int, d);
    }
    assert(((t.secs as int / 86400 + d + 3) % 7) == s->end_day) by {
        lemma_weekday_shift(t.secs as int / 86400 + 3, d, s->end_day as int);
    }
}

proof fn lemma_div_shift(x: int, d: int)
    ensures
        (x + 86400 * d) / 86400 == x / 86400 + d,
{
    vstd::arithmetic::div_mod::lemma_hoist_over_denominator(x, d, 86400);
    assert(x / 86400 + d == (x + d * 86400) / 86400);
}

proof fn lemma_weekday_shift(a: int, d: int, e: int)
    requires
        0 <= e < 7,
        d == (e - a % 7) % 7,
    ensures
        (a + d) % 7 == e,
{
    vstd::arithmetic::div_mod::lemma_add_mod_noop(a, d, 7);
    vstd::arithmetic::div_mod::lemma_mod_twice(e - a % 7, 7);
    vstd::arithmetic::div_mod::lemma_add_mod_noop_right(a % 7, e - a % 7, 7);
    vstd::arithmetic::div_mod::lemma_small_mod(e as nat, 7);
}

fn utc_time_before(a: UtcTime, b: UtcTime) -> (r: bool)
    ensures
        r == utc_before(a, b),
{
    a.secs < b.secs || (a.secs == b.secs && a.nanos < b.nanos)
}

impl SessionSchedule {
    /// Days that name a day of the week.
    pub open spec fn wf(self) -> bool {
        match self {
            SessionSchedule::Weekly { start_day, end_day, .. } => start_day < 7 && end_day < 7,
            _ => true,
        }
    }

    /// Whether a new session began between `old_time` and `test_time`.
    pub fn is_new_session(&self, old_time: UtcTime, test_time: UtcTime) -> (r: bool)
        requires
            self.wf(),
            utc_time_ok(old_time),
        ensures
            r == new_session(*self, old_time, test_time),
    {
        match self {
            SessionSchedule::NonStop => false,
            _ => {
                if utc_time_before(old_time, test_time) {
                    let next_end = self.next_end(old_time);
                    return !utc_time_before(next_end, old_time) && utc_time_before(next_end, test_time);
                }
                false
            },
        }
    }

    /// The end of the session that runs at `old_time`.
    fn next_end(&self, old_time: UtcTime) -> (r: UtcTime)
        requires
            self.wf(),
            !(*self is NonStop),
            utc_time_ok(old_time),
        ensures
            r == session_end(*self, old_time),
    {
        match self {
            SessionSchedule::Weekly { end_day, .. } => {
                let (day, _) = utc_local(old_time);
                assert(day < 7);
                let k: u8 = (*end_day + 7 - day) % 7;
                assert(k == days_until(day, *end_day));
                let secs: i64 = old_time.secs + 86400 * (k as i64);
                UtcTime { secs, nanos: old_time.nanos }
            },
            _ => old_time,
        }
    }

    /// Whether the session runs at `time`.
    pub fn is_session_time(&self, time: UtcTime) -> (r: bool)
        requires
            utc_time_ok(time),
        ensures
            r == session_time(*self, time),
    {
        let (day, now) = self.adjust_utc_datetime(time);
        match self {
            SessionSchedule::NonStop => true,
            SessionSchedule::Weekly { .. } => self.check_day(day, now),
            SessionSchedule::Daily { .. } => self.check_time(now),
        }
    }

    /// Whether the day `day` at `time` lies in the session's week.
    fn check_day(&self, day: u8, time: TimeOfDay) -> (r: bool)
        requires
            *self is Weekly,
        ensures
            r == in_week(*self, day, time),
    {
        match self {
            SessionSchedule::Weekly { start_day, end_day, start_time, end_time, .. } => {
                if *start_day < *end_day {
                    if day < *start_day || day > *end_day {
                        false
                    } else if day < *end_day {
                        *start_day < day || start_time.le(&time)
                    } else {
                        *end_day > day || time.le(end_time)
                    }
                } else if end_time.le(start_time) {
                    day != *start_day || self.check_time(time)
                } else {
                    day == *start_day && self.check_time(time)
                }
            },
            _ => false,
        }
    }

    /// Whether `time` lies in the session's day.
    fn check_time(&self, time: TimeOfDay) -> (r: bool)
        requires
            !(*self is NonStop),
        ensures
            r == in_day(*self, time),
    {
        let (start_time, end_time) = match self {
            SessionSchedule::Weekly { start_time, .. } => (*start_time, *start_time),
            SessionSchedule::Daily { start_time, end_time, .. } => (*start_time, *end_time),
            SessionSchedule::NonStop => (TimeOfDay { secs: 0, nanos: 0 }, TimeOfDay { secs: 0, nanos: 0 }),
        };
        if start_time.lt(&end_time) {
            start_time.le(&time) && time.le(&end_time)
        } else if end_time.lt(&start_time) {
            start_time.le(&time) || time.le(&end_time)
        } else {
            true
        }
    }

    /// The day and time that the schedule reads `now` at.
    fn adjust_utc_datetime(&self, now: UtcTime) -> (r: (u8, TimeOfDay))
        requires
            utc_time_ok(now),
        ensures
            r == adjusted_time(*self, now),
    {
        if self.use_local_time() {
            utc_local(now)
        } else {
            match self.timezone() {
                Some(z) => match zone_local(z.as_str(), now) {
                    Some(r) => r,
                    None => utc_local(now),
                },
                None => utc_local(now),
            }
        }
    }

    /// Whether the schedule asks for local time.
    pub fn use_local_time(&self) -> (r: bool)
        ensures
            r == match *self {
                SessionSchedule::NonStop => false,
                SessionSchedule::Weekly { use_localtime, .. } => use_localtime,
                SessionSchedule::Daily { use_localtime, .. } => use_localtime,
            },
    {
        match self {
            SessionSchedule::NonStop => false,
            SessionSchedule::Weekly { use_localtime, .. } => *use_localtime,
            SessionSchedule::Daily { use_localtime, .. } => *use_localtime,
        }
    }

    /// The name of the schedule's time zone.
    pub fn timezone(&self) -> (r: Option<&String>)
        ensures
            ref_view(r) == match *self {
                SessionSchedule::NonStop => None,
                SessionSchedule::Weekly { timezone, .. } => opt_view(timezone),
                SessionSchedule::Daily { timezone, .. } => opt_view(timezone),
            },
    {
        match self {
            SessionSchedule::NonStop => None,
            SessionSchedule::Weekly { timezone, .. } => timezone.as_ref(),
            SessionSchedule::Daily { timezone, .. } => timezone.as_ref(),
        }
    }
}

} // verus!
