use dfx::session::session_schedule::{SessionSchedule, TimeOfDay, UtcTime};

fn at(secs: i64) -> UtcTime {
    UtcTime { secs, nanos: 0 }
}

fn tod(h: u32, m: u32) -> TimeOfDay {
    TimeOfDay { secs: h * 3600 + m * 60, nanos: 0 }
}

// 1970-01-05 was a Monday.
const MONDAY: i64 = 4 * 86400;

#[test]
fn non_stop_is_always_on() {
    let s = SessionSchedule::NonStop;
    assert!(s.is_session_time(at(0)));
    assert!(s.is_session_time(at(MONDAY + 12345)));
    assert!(!s.is_new_session(at(0), at(1_000_000)));
}

#[test]
fn daily_schedule_between_times() {
    let s = SessionSchedule::Daily { start_time: tod(8, 0), end_time: tod(17, 0), timezone: None, use_localtime: false };
    assert!(s.is_session_time(at(MONDAY + 9 * 3600)));
    assert!(!s.is_session_time(at(MONDAY + 18 * 3600)));
    assert!(s.is_session_time(at(MONDAY + 17 * 3600)));
    assert!(s.is_new_session(at(0), at(1)));
    assert!(!s.is_new_session(at(1), at(0)));
}

#[test]
fn daily_schedule_over_midnight() {
    let s = SessionSchedule::Daily { start_time: tod(22, 0), end_time: tod(6, 0), timezone: None, use_localtime: false };
    assert!(s.is_session_time(at(MONDAY + 23 * 3600)));
    assert!(s.is_session_time(at(MONDAY + 3600)));
    assert!(!s.is_session_time(at(MONDAY + 12 * 3600)));
}

#[test]
fn weekly_schedule_days() {
    let s = SessionSchedule::Weekly {
        start_day: 0,
        end_day: 4,
        start_time: tod(8, 0),
        end_time: tod(17, 0),
        timezone: None,
        use_localtime: false,
    };
    // Monday 09:00 and Wednesday 03:00 are in; Monday 07:00, Friday 18:00 and Saturday are out.
    assert!(s.is_session_time(at(MONDAY + 9 * 3600)));
    assert!(s.is_session_time(at(MONDAY + 2 * 86400 + 3 * 3600)));
    assert!(!s.is_session_time(at(MONDAY + 7 * 3600)));
    assert!(!s.is_session_time(at(MONDAY + 4 * 86400 + 18 * 3600)));
    assert!(!s.is_session_time(at(MONDAY + 5 * 86400 + 12 * 3600)));
    // the session of a Monday ends on the Friday: a new one begins after it
    assert!(!s.is_new_session(at(MONDAY), at(MONDAY + 86400)));
    assert!(s.is_new_session(at(MONDAY), at(MONDAY + 4 * 86400 + 1)));
}

#[test]
fn schedule_in_a_time_zone() {
    // New York is behind UTC: 1970-01-05 03:00 UTC is Sunday 22:00 there.
    let s = SessionSchedule::Daily {
        start_time: tod(21, 0),
        end_time: tod(23, 0),
        timezone: Some("America/New_York".to_string()),
        use_localtime: false,
    };
    assert!(s.is_session_time(at(MONDAY + 3 * 3600)));
    let utc = SessionSchedule::Daily { start_time: tod(21, 0), end_time: tod(23, 0), timezone: None, use_localtime: false };
    assert!(!utc.is_session_time(at(MONDAY + 3 * 3600)));
    let unknown = SessionSchedule::Daily {
        start_time: tod(21, 0),
        end_time: tod(23, 0),
        timezone: Some("Nowhere/Else".to_string()),
        use_localtime: false,
    };
    assert!(!unknown.is_session_time(at(MONDAY + 3 * 3600)));
}

#[test]
fn far_instants_within_bound_are_handled() {
    use_far_instants();
}

fn use_far_instants() {
    let t = dfx::session::session_schedule::UtcTime { secs: dfx::session::session_schedule::UTC_SECS_BOUND, nanos: 999_999_999 };
    assert!(dfx::session::session_schedule::SessionSchedule::NonStop.is_session_time(t));
    let t = dfx::session::session_schedule::UtcTime { secs: -dfx::session::session_schedule::UTC_SECS_BOUND, nanos: 0 };
    assert!(dfx::session::session_schedule::SessionSchedule::NonStop.is_session_time(t));
}

#[test]
fn far_instants_in_a_time_zone_are_handled() {
    let s = SessionSchedule::Weekly {
        start_day: 0,
        end_day: 4,
        start_time: tod(8, 0),
        end_time: tod(17, 0),
        timezone: Some("Pacific/Kiritimati".to_string()),
        use_localtime: false,
    };
    let bound = dfx::session::session_schedule::UTC_SECS_BOUND;
    let _ = s.is_session_time(at(bound));
    let _ = s.is_session_time(at(-bound));
    let _ = s.is_new_session(at(-bound), at(bound));
}
