//! The values of a session's settings as they are read, completed by the
//! default section, checked, and turned into a `SessionSetting`.
use vstd::prelude::*;

use chrono::Timelike;

use super::setting::{
    connection_type_named, ConnectionType, LoggingOptions, Persistence, SessionSetting, SettingsConnection,
    SocketOptions, ValidationOptions,
};
use super::{setting_named, setting_of, setting_slot, slot_of, SessionSettingsError, SettingOption, SETTING_SLOTS};
use crate::fields::converters::datetime::{datetime_format_named, DateTimeFormat};
use crate::session::session_schedule::{SessionSchedule, TimeOfDay};
use crate::text::{ascii_lower, parse_unsigned, parse_unsigned_chars, str_chars, str_eq};

verus! {

/// The values of a session's settings, one place per setting that a
/// session keeps.
#[derive(Debug)]
pub struct DynamicSessionSettingBuilder {
    values: Vec<Option<String>>,
}

/// Values that passed `validate`.
pub struct Validated(DynamicSessionSettingBuilder);

pub open spec fn opt_view(o: Option<String>) -> Option<Seq<char>> {
    match o {
        Some(s) => Some(s@),
        None => None,
    }
}

pub open spec fn ref_view(o: Option<&String>) -> Option<Seq<char>> {
    match o {
        Some(s) => Some(s@),
        None => None,
    }
}

pub open spec fn values_view(v: Seq<Option<String>>) -> Seq<Option<Seq<char>>> {
    v.map_values(|o: Option<String>| opt_view(o))
}

impl View for DynamicSessionSettingBuilder {
    type V = Seq<Option<Seq<char>>>;

    closed spec fn view(&self) -> Seq<Option<Seq<char>>> {
        values_view(self.values@)
    }
}

/// The value of the setting `o` among `v`.
pub open spec fn value_of(v: Seq<Option<Seq<char>>>, o: SettingOption) -> Option<Seq<char>> {
    match setting_slot(o) {
        Some(i) => v[i as int],
        None => None,
    }
}

/// A flag: the value is `Y`; `default` where it is unset.
pub open spec fn flag_of(v: Seq<Option<Seq<char>>>, o: SettingOption, default: bool) -> bool {
    match value_of(v, o) {
        Some(x) => x == "Y"@,
        None => default,
    }
}

/// A number: the value read as a `u32`; `default` where it is unset or no `u32`.
pub open spec fn number_of(v: Seq<Option<Seq<char>>>, o: SettingOption, default: u32) -> u32 {
    match value_of(v, o) {
        Some(x) => match parse_unsigned(x, u32::MAX as nat) {
            Some(n) => n as u32,
            None => default,
        },
        None => default,
    }
}

/// The value, or nothing where it is unset.
pub open spec fn text_of(v: Seq<Option<Seq<char>>>, o: SettingOption) -> Seq<char> {
    match value_of(v, o) {
        Some(x) => x,
        None => Seq::empty(),
    }
}

/// The values of `a`, completed by those of `b` where `a` has none.
pub open spec fn merged(a: Seq<Option<Seq<char>>>, b: Seq<Option<Seq<char>>>) -> Seq<Option<Seq<char>>> {
    Seq::new(a.len(), |i: int| if a[i] is Some { a[i] } else { b[i] })
}

/// The values with none set.
pub open spec fn no_values() -> Seq<Option<Seq<char>>> {
    Seq::new(SETTING_SLOTS as nat, |i: int| None)
}

/// What `validate` finds wrong with the values, in order.
pub open spec fn validation_errors(v: Seq<Option<Seq<char>>>) -> Seq<Seq<char>> {
    (if (match value_of(v, SettingOption::ConnectionType) {
        Some(x) => connection_type_named(x) is Some,
        None => false,
    }) {
        Seq::empty()
    } else {
        seq!["ConnectionType must be set to either 'acceptor' or 'initiator'."@]
    }) + (if value_of(v, SettingOption::BeginString) is None {
        seq!["BeginString must be set."@]
    } else {
        Seq::empty()
    }) + (if value_of(v, SettingOption::SenderCompID) is None {
        seq!["SenderCompID must be set."@]
    } else {
        Seq::empty()
    }) + (if value_of(v, SettingOption::TargetCompID) is None {
        seq!["TargetCompID must be set."@]
    } else {
        Seq::empty()
    })
}

/// The day named `s` (Monday 0 to Sunday 6): the first three letters of
/// its English name, or the whole name, in any case.
pub open spec fn weekday_named(s: Seq<char>) -> Option<u8> {
    let l = s.map_values(|c: char| ascii_lower(c));
    if l == "mon"@ || l == "monday"@ {
        Some(0)
    } else if l == "tue"@ || l == "tuesday"@ {
        Some(1)
    } else if l == "wed"@ || l == "wednesday"@ {
        Some(2)
    } else if l == "thu"@ || l == "thursday"@ {
        Some(3)
    } else if l == "fri"@ || l == "friday"@ {
        Some(4)
    } else if l == "sat"@ || l == "saturday"@ {
        Some(5)
    } else if l == "sun"@ || l == "sunday"@ {
        Some(6)
    } else {
        None
    }
}

/// The time of day that chrono reads from `s` with the format `%H:%M:%S`.
pub uninterp spec fn time_hms(s: Seq<char>) -> Option<TimeOfDay>;

/// Whether chrono-tz knows a time zone named `s`.
pub uninterp spec fn timezone_known(s: Seq<char>) -> bool;

/// `s.parse::<chrono::Weekday>()`: the day named `s`, Monday 0 to Sunday 6.
#[verifier::external_body]
fn parse_weekday(s: &str) -> (r: Option<u8>)
    ensures
        r == weekday_named(s@),
{
    s.parse::<chrono::Weekday>().ok().map(|w| w.num_days_from_monday() as u8)
}

/// `chrono::NaiveTime::parse_from_str(s, "%H:%M:%S")`, as the seconds since
/// midnight and the nanoseconds within the second.
#[verifier::external_body]
fn parse_time_hms(s: &str) -> (r: Option<TimeOfDay>)
    ensures
        r == time_hms(s@),
{
    chrono::NaiveTime::parse_from_str(s, "%H:%M:%S").ok().map(
        |t| TimeOfDay { secs: t.num_seconds_from_midnight(), nanos: t.nanosecond() },
    )
}

/// `s.parse::<chrono_tz::Tz>().is_ok()`: whether chrono-tz knows the time zone `s`.
#[verifier::external_body]
fn is_timezone(s: &str) -> (r: bool)
    ensures
        r == timezone_known(s@),
{
    s.parse::<chrono_tz::Tz>().is_ok()
}

/// The schedule that values describe, with its time zone by name.
pub enum ScheduleModel {
    NonStop,
    Weekly {
        start_day: u8,
        end_day: u8,
        start_time: TimeOfDay,
        end_time: TimeOfDay,
        timezone: Option<Seq<char>>,
        use_localtime: bool,
    },
    Daily { start_time: TimeOfDay, end_time: TimeOfDay, timezone: Option<Seq<char>>, use_localtime: bool },
}

/// The time zone set and known, if any.
pub open spec fn timezone_of(v: Seq<Option<Seq<char>>>) -> Option<Seq<char>> {
    match value_of(v, SettingOption::TimeZone) {
        Some(tz) => if timezone_known(tz) {
            Some(tz)
        } else {
            None
        },
        None => None,
    }
}

/// The schedule that values describe: non-stop where NonStopSession is not
/// `N` and no day or time is set, or nothing is set; weekly where both days
/// and times are set; daily where only both times are. A day or time that
/// cannot be read, or a schedule that lacks one, is refused with that
/// setting (the one lacking: start time, end time, start day, end day).
pub open spec fn schedule_of(v: Seq<Option<Seq<char>>>) -> Result<ScheduleModel, (SettingOption, Seq<char>)> {
    let sd = value_of(v, SettingOption::StartDay);
    let ed = value_of(v, SettingOption::EndDay);
    let st = value_of(v, SettingOption::StartTime);
    let et = value_of(v, SettingOption::EndTime);
    let any_set = sd is Some || ed is Some || et is Some || st is Some;
    if flag_of(v, SettingOption::NonStopSession, true) && !any_set {
        Ok(ScheduleModel::NonStop)
    } else if sd is Some && ed is Some && st is Some && et is Some {
        match (weekday_named(sd.unwrap()), weekday_named(ed.unwrap()), time_hms(st.unwrap()), time_hms(et.unwrap())) {
            (None, _, _, _) => Err((SettingOption::StartDay, sd.unwrap())),
            (Some(_), None, _, _) => Err((SettingOption::EndDay, ed.unwrap())),
            (Some(_), Some(_), None, _) => Err((SettingOption::StartTime, st.unwrap())),
            (Some(_), Some(_), Some(_), None) => Err((SettingOption::EndTime, et.unwrap())),
            (Some(a), Some(b), Some(c), Some(d)) => Ok(
                ScheduleModel::Weekly {
                    start_day: a,
                    end_day: b,
                    start_time: c,
                    end_time: d,
                    timezone: timezone_of(v),
                    use_localtime: flag_of(v, SettingOption::UseLocalTime, false),
                },
            ),
        }
    } else if sd is None && ed is None && st is Some && et is Some {
        match (time_hms(st.unwrap()), time_hms(et.unwrap())) {
            (None, _) => Err((SettingOption::StartTime, st.unwrap())),
            (Some(_), None) => Err((SettingOption::EndTime, et.unwrap())),
            (Some(c), Some(d)) => Ok(
                ScheduleModel::Daily {
                    start_time: c,
                    end_time: d,
                    timezone: timezone_of(v),
                    use_localtime: flag_of(v, SettingOption::UseLocalTime, false),
                },
            ),
        }
    } else if !any_set && value_of(v, SettingOption::TimeZone) is None {
        Ok(ScheduleModel::NonStop)
    } else if st is None {
        Err((SettingOption::StartTime, Seq::empty()))
    } else if et is None {
        Err((SettingOption::EndTime, Seq::empty()))
    } else if sd is None {
        Err((SettingOption::StartDay, Seq::empty()))
    } else {
        Err((SettingOption::EndDay, Seq::empty()))
    }
}

pub open spec fn opt_string_is(o: Option<String>, m: Option<Seq<char>>) -> bool {
    opt_view(o) == m
}

/// Whether `s` is the schedule that `m` describes.
pub open spec fn schedule_is(s: SessionSchedule, m: ScheduleModel) -> bool {
    match (s, m) {
        (SessionSchedule::NonStop, ScheduleModel::NonStop) => true,
        (
            SessionSchedule::Weekly { start_day, end_day, start_time, end_time, timezone, use_localtime },
            ScheduleModel::Weekly {
                start_day: a,
                end_day: b,
                start_time: c,
                end_time: d,
                timezone: tz,
                use_localtime: ul,
            },
        ) => start_day == a && end_day == b && start_time == c && end_time == d && opt_string_is(timezone, tz)
            && use_localtime == ul,
        (
            SessionSchedule::Daily { start_time, end_time, timezone, use_localtime },
            ScheduleModel::Daily { start_time: c, end_time: d, timezone: tz, use_localtime: ul },
        ) => start_time == c && end_time == d && opt_string_is(timezone, tz) && use_localtime == ul,
        _ => false,
    }
}

/// Whether `s` is the setting that the values `v` describe, with the schedule `sched`.
pub open spec fn setting_is(s: SessionSetting, v: Seq<Option<Seq<char>>>, sched: ScheduleModel) -> bool {
    &&& s.begin_string@ == text_of(v, SettingOption::BeginString)
    &&& s.sender_comp_id@ == text_of(v, SettingOption::SenderCompID)
    &&& s.sender_sub_id@ == text_of(v, SettingOption::SenderSubID)
    &&& s.sender_location_id@ == text_of(v, SettingOption::SenderLocationID)
    &&& s.target_comp_id@ == text_of(v, SettingOption::TargetCompID)
    &&& s.target_sub_id@ == text_of(v, SettingOption::TargetSubID)
    &&& s.target_location_id@ == text_of(v, SettingOption::TargetLocationID)
    &&& match s.connection {
        SettingsConnection::Acceptor { is_dynamic, session_qualifier, accept_host, accept_port } => {
            &&& value_of(v, SettingOption::ConnectionType) == Some("acceptor"@)
            &&& is_dynamic == flag_of(v, SettingOption::IsDynamic, false)
            &&& opt_string_is(session_qualifier, value_of(v, SettingOption::SessionQualifier))
            &&& opt_string_is(accept_host, value_of(v, SettingOption::SocketAcceptHost))
            &&& opt_string_is(accept_port, value_of(v, SettingOption::SocketAcceptPort))
        },
        SettingsConnection::Initiator {
            connect_host,
            connect_port,
            reconnect_interval,
            heart_bt_int,
            logon_timeout,
            logout_timeout,
        } => {
            &&& value_of(v, SettingOption::ConnectionType) == Some("initiator"@)
            &&& opt_string_is(connect_host, value_of(v, SettingOption::SocketConnectHost))
            &&& opt_string_is(connect_port, value_of(v, SettingOption::SocketConnectPort))
            &&& reconnect_interval == number_of(v, SettingOption::ReconnectInterval, 30)
            &&& heart_bt_int == number_of(v, SettingOption::HeartBtInt, 30)
            &&& logon_timeout == number_of(v, SettingOption::LogonTimeout, 10)
            &&& logout_timeout == number_of(v, SettingOption::LogoutTimeout, 2)
        },
    }
    &&& s.socket_options.no_delay == flag_of(v, SettingOption::SocketNodelay, true)
    &&& s.socket_options.receive_buffer_size == number_of(v, SettingOption::SocketReceiveBufferSize, 8192)
    &&& s.socket_options.send_buffer_size == number_of(v, SettingOption::SocketSendBufferSize, 8192)
    &&& s.socket_options.receive_timeout == number_of(v, SettingOption::SocketReceiveTimeout, 0)
    &&& s.socket_options.send_timeout == number_of(v, SettingOption::SocketSendTimeout, 0)
    &&& opt_string_is(s.logging.file_log_path, value_of(v, SettingOption::FileLogPath))
    &&& opt_string_is(s.logging.debug_file_log_path, value_of(v, SettingOption::FileLogPath))
    &&& match s.persistence {
        Persistence::FileStore { path } => flag_of(v, SettingOption::PersistMessages, true) && value_of(
            v,
            SettingOption::FileStorePath,
        ) == Some(path@),
        Persistence::Memory => flag_of(v, SettingOption::PersistMessages, true) && value_of(
            v,
            SettingOption::FileStorePath,
        ) is None,
        Persistence::NoPersistence => !flag_of(v, SettingOption::PersistMessages, true),
    }
    &&& opt_string_is(s.default_appl_ver_id, value_of(v, SettingOption::DefaultApplVerID))
    &&& schedule_is(s.schedule, sched)
    &&& validation_options_are(s.validation_options, v)
}

/// Whether `o` are the validation options that the values `v` describe.
pub open spec fn validation_options_are(o: ValidationOptions, v: Seq<Option<Seq<char>>>) -> bool {
    &&& o.milliseconds_in_time_stamp == flag_of(v, SettingOption::MillisecondsInTimeStamp, false)
    &&& o.refresh_on_logon == flag_of(v, SettingOption::RefreshOnLogon, false)
    &&& o.reset_on_logon == flag_of(v, SettingOption::ResetOnLogon, false)
    &&& o.reset_on_logout == flag_of(v, SettingOption::ResetOnLogout, false)
    &&& o.reset_on_disconnect == flag_of(v, SettingOption::ResetOnDisconnect, false)
    &&& o.send_redundant_resend_requests == flag_of(v, SettingOption::SendRedundantResendRequests, false)
    &&& o.resend_session_level_rejects == flag_of(v, SettingOption::ResendSessionLevelRejects, false)
    &&& o.time_stamp_precision == match value_of(v, SettingOption::TimeStampPrecision) {
        Some(x) => match datetime_format_named(x) {
            Some(f) => f,
            None => DateTimeFormat::Seconds,
        },
        None => DateTimeFormat::Seconds,
    }
    &&& o.enable_last_msg_seq_num_processed == flag_of(v, SettingOption::EnableLastMsgSeqNumProcessed, false)
    &&& o.max_messages_in_resend_request == number_of(v, SettingOption::MaxMessagesInResendRequest, 0)
    &&& o.send_logout_before_disconnect_from_timeout == flag_of(
        v,
        SettingOption::SendLogoutBeforeDisconnectFromTimeout,
        false,
    )
    &&& o.ignore_poss_dup_resend_requests == flag_of(v, SettingOption::IgnorePossDupResendRequests, false)
    &&& o.requires_orig_sending_time == flag_of(v, SettingOption::RequiresOrigSendingTime, true)
    &&& o.use_data_dictionary == flag_of(v, SettingOption::UseDataDictionary, false)
    &&& opt_string_is(o.data_dictionary, value_of(v, SettingOption::DataDictionary))
    &&& opt_string_is(o.transport_data_dictionary, value_of(v, SettingOption::TransportDataDictionary))
    &&& opt_string_is(o.app_data_dictionary, value_of(v, SettingOption::AppDataDictionary))
    &&& o.validate_fields_out_of_order == flag_of(v, SettingOption::ValidateFieldsOutOfOrder, true)
    &&& o.validate_fields_have_values == flag_of(v, SettingOption::ValidateFieldsHaveValues, true)
    &&& o.validate_user_defined_fields == flag_of(v, SettingOption::ValidateUserDefinedFields, true)
    &&& o.validate_length_and_checksum == flag_of(v, SettingOption::ValidateLengthAndChecksum, true)
    &&& o.allow_unknown_msg_fields == flag_of(v, SettingOption::AllowUnknownMsgFields, false)
    &&& o.check_latency == flag_of(v, SettingOption::CheckLatency, true)
    &&& o.max_latency == number_of(v, SettingOption::MaxLatency, 120)
}

/// Completing values by default ones keeps every value that is set and
/// takes the default where none is: merging with no values changes
/// nothing, merging no values gives the default ones, and merging values
/// with themselves gives them back.
pub proof fn law_merge_prefers_own(a: Seq<Option<Seq<char>>>, b: Seq<Option<Seq<char>>>)
    requires
        a.len() == b.len(),
    ensures
        forall|i: int| 0 <= i < a.len() && a[i] is Some ==> #[trigger] merged(a, b)[i] == a[i],
        forall|i: int| 0 <= i < a.len() && a[i] is None ==> #[trigger] merged(a, b)[i] == b[i],
        merged(a, Seq::new(a.len(), |i: int| None)) == a,
        merged(Seq::new(b.len(), |i: int| None), b) == b,
        merged(a, a) == a,
{
    assert(merged(a, Seq::new(a.len(), |i: int| None)) =~= a);
    assert(merged(Seq::new(b.len(), |i: int| None), b) =~= b);
    assert(merged(a, a) =~= a);
}

/// The values with none set.
pub fn builder_of() -> (r: DynamicSessionSettingBuilder)
    ensures
        r@ == no_values(),
        r.wf(),
{
    let mut values: Vec<Option<String>> = Vec::new();
    let mut i: usize = 0;
    while i < SETTING_SLOTS
        invariant
            i <= SETTING_SLOTS,
            values@.len() == i,
            forall|k: int| 0 <= k < i ==> (#[trigger] values@[k]) is None,
        decreases SETTING_SLOTS - i,
    {
        values.push(None);
        i = i + 1;
    }
    let r = DynamicSessionSettingBuilder { values };
    assert(r@ =~= no_values());
    r
}

impl Default for DynamicSessionSettingBuilder {
    fn default() -> (r: Self)
        ensures
            r@ == no_values(),
            r.wf(),
    {
        builder_of()
    }
}

/// The error of a line that cannot be read.
fn line_error(line_num: usize, line: &str, reason: &str) -> (r: SessionSettingsError)
    ensures
        r matches SessionSettingsError::LineParseError { line: l, reason: x, line_number: n } && l@ == line@
            && x@ == reason@ && n == line_num,
{
    SessionSettingsError::LineParseError { line: line.to_owned(), reason: reason.to_owned(), line_number: line_num }
}

/// What `set_from_line` does to values: an empty line changes nothing; a
/// line `name=value` sets the setting named `name`; a line with more than
/// one `=`, with none, or naming no setting is refused.
pub open spec fn line_outcome(v: Seq<Option<Seq<char>>>, line: Seq<char>) -> Result<Seq<Option<Seq<char>>>, LineFailure> {
    if line.len() == 0 {
        Ok(v)
    } else {
        match crate::text::first_index(line, '=') {
            None => Err(LineFailure::NoValue),
            Some(i) => {
                let name = line.subrange(0, i);
                let rest = line.subrange(i + 1, line.len() as int);
                if crate::text::first_index(rest, '=') is Some {
                    Err(LineFailure::TooManyEquals)
                } else {
                    match setting_named(name) {
                        None => Err(LineFailure::NoSuchSetting(name)),
                        Some(o) => Ok(
                            match setting_slot(o) {
                                Some(k) => v.update(k as int, Some(rest)),
                                None => v,
                            },
                        ),
                    }
                }
            },
        }
    }
}

/// Why a line of settings cannot be read.
pub enum LineFailure {
    TooManyEquals,
    NoValue,
    NoSuchSetting(Seq<char>),
}

impl DynamicSessionSettingBuilder {
    pub closed spec fn wf(self) -> bool {
        self.values@.len() == SETTING_SLOTS
    }

    /// Sets the setting `option` to `value`; the SSL settings are not kept.
    pub fn set(&mut self, option: SettingOption, value: &str)
        requires
            old(self).wf(),
        ensures
            final(self).wf(),
            final(self)@ == match setting_slot(option) {
                Some(k) => old(self)@.update(k as int, Some(value@)),
                None => old(self)@,
            },
    {
        match slot_of(option) {
            Some(k) => {
                self.values.set(k, Some(value.to_owned()));
                assert(self@ =~= old(self)@.update(k as int, Some(value@)));
            },
            None => {},
        }
    }

    /// Reads a line `name=value` (the line numbered `line_num`) into the
    /// values; a line that is refused leaves them as they were.
    pub fn set_from_line(&mut self, line_num: usize, line: &str) -> (r: Result<(), SessionSettingsError>)
        requires
            old(self).wf(),
        ensures
            final(self).wf(),
            match line_outcome(old(self)@, line@) {
                Ok(v) => r is Ok && final(self)@ == v,
                Err(LineFailure::TooManyEquals) => r matches Err(
                    SessionSettingsError::LineParseError { line: l, reason: x, line_number: n },
                ) && l@ == line@ && x@ == "Too many '=' in line."@ && n == line_num && final(self)@ == old(self)@,
                Err(LineFailure::NoValue) => r matches Err(
                    SessionSettingsError::LineParseError { line: l, reason: x, line_number: n },
                ) && l@ == line@ && x@ == "No value specified."@ && n == line_num && final(self)@ == old(self)@,
                Err(LineFailure::NoSuchSetting(name)) => r matches Err(SessionSettingsError::NoSuchSetting(s))
                    && s@ == name && final(self)@ == old(self)@,
            },
    {
        let cs = str_chars(line);
        if cs.len() == 0 {
            return Ok(());
        }
        let i = match crate::text::index_of(cs.as_slice(), '=') {
            None => {
                return Err(line_error(line_num, line, "No value specified."));
            },
            Some(i) => i,
        };
        proof {
            crate::text::lemma_first_index_bounds(cs@, '=');
        }
        let name = crate::message::chars_range(&cs, 0, i);
        let rest = crate::message::chars_range(&cs, i + 1, cs.len());
        if crate::text::index_of(rest.as_slice(), '=').is_some() {
            return Err(line_error(line_num, line, "Too many '=' in line."));
        }
        let name_string = crate::text::string_from_chars(name.as_slice());
        let value_string = crate::text::string_from_chars(rest.as_slice());
        match setting_of(name_string.as_str()) {
            None => Err(SessionSettingsError::NoSuchSetting(name_string)),
            Some(o) => {
                self.set(o, value_string.as_str());
                Ok(())
            },
        }
    }

    /// The values, completed by those of `other` where they have none.
    pub fn merge(self, other: &Self) -> (r: Self)
        requires
            self.wf(),
            other.wf(),
        ensures
            r.wf(),
            r@ == merged(self@, other@),
    {
        let ghost before = self@;
        let mut this = self;
        let mut i: usize = 0;
        while i < SETTING_SLOTS
            invariant
                i <= SETTING_SLOTS,
                this.values@.len() == SETTING_SLOTS,
                other.values@.len() == SETTING_SLOTS,
                before.len() == SETTING_SLOTS,
                forall|k: int| 0 <= k < i ==> this@[k] == (if before[k] is Some { before[k] } else { other@[k] }),
                forall|k: int| i <= k < SETTING_SLOTS ==> this@[k] == before[k],
            decreases SETTING_SLOTS - i,
        {
            if this.values[i].is_none() {
                let ghost prev = this@;
                let v = match &other.values[i] {
                    Some(s) => Some(s.clone()),
                    None => None,
                };
                this.values.set(i, v);
                proof {
                    assert(this@ =~= prev.update(i as int, opt_view(v)));
                }
            }
            i = i + 1;
        }
        assert(this@ =~= merged(before, other@));
        this
    }

    /// The value of the setting `o`.
    fn get(&self, o: SettingOption) -> (r: Option<&String>)
        requires
            self.wf(),
        ensures
            ref_view(r) == value_of(self@, o),
    {
        match slot_of(o) {
            Some(k) => self.values[k].as_ref(),
            None => None,
        }
    }

    /// A copy of the value of the setting `o`.
    fn text(&self, o: SettingOption) -> (r: Option<String>)
        requires
            self.wf(),
        ensures
            opt_view(r) == value_of(self@, o),
    {
        match self.get(o) {
            Some(s) => Some(s.clone()),
            None => None,
        }
    }

    /// The value of the setting `o`, or nothing.
    fn text_or_empty(&self, o: SettingOption) -> (r: String)
        requires
            self.wf(),
        ensures
            r@ == text_of(self@, o),
    {
        match self.get(o) {
            Some(s) => s.clone(),
            None => String::new(),
        }
    }

    /// The flag `o`: its value is `Y`; `default` where it is unset.
    fn flag(&self, o: SettingOption, default: bool) -> (r: bool)
        requires
            self.wf(),
        ensures
            r == flag_of(self@, o, default),
    {
        match self.get(o) {
            Some(s) => str_eq(s.as_str(), "Y"),
            None => default,
        }
    }

    /// The number `o`: its value read as a `u32`; `default` where it is
    /// unset or no `u32`.
    fn number(&self, o: SettingOption, default: u32) -> (r: u32)
        requires
            self.wf(),
        ensures
            r == number_of(self@, o, default),
    {
        match self.get(o) {
            Some(s) => {
                let cs = str_chars(s.as_str());
                match parse_unsigned_chars(cs.as_slice(), 0xffff_ffffu128) {
                    Some(n) => n as u32,
                    None => default,
                }
            },
            None => default,
        }
    }
}

impl DynamicSessionSettingBuilder {
    /// Checks that the connection type is `acceptor` or `initiator` and that
    /// BeginString, SenderCompID and TargetCompID are set; else refuses the
    /// values with all that is wrong.
    pub fn validate(self) -> (r: Result<Validated, SessionSettingsError>)
        requires
            self.wf(),
        ensures
            validation_errors(self@).len() == 0 ==> (r matches Ok(v) && v.values()@ == self@ && v.wf()),
            validation_errors(self@).len() > 0 ==> (r matches Err(SessionSettingsError::ValidationErrors(es))
                && es@.map_values(|e: String| e@) == validation_errors(self@)),
    {
        let mut errors: Vec<String> = Vec::new();
        let conn = match self.get(SettingOption::ConnectionType) {
            Some(s) => ConnectionType::from_name(s.as_str()),
            None => None,
        };
        if conn.is_none() {
            errors.push("ConnectionType must be set to either 'acceptor' or 'initiator'.".to_owned());
        }
        let ghost e1 = errors@.map_values(|e: String| e@);
        if self.get(SettingOption::BeginString).is_none() {
            errors.push("BeginString must be set.".to_owned());
        }
        let ghost e2 = errors@.map_values(|e: String| e@);
        if self.get(SettingOption::SenderCompID).is_none() {
            errors.push("SenderCompID must be set.".to_owned());
        }
        let ghost e3 = errors@.map_values(|e: String| e@);
        if self.get(SettingOption::TargetCompID).is_none() {
            errors.push("TargetCompID must be set.".to_owned());
        }
        proof {
            let v = self@;
            let c = if (match value_of(v, SettingOption::ConnectionType) {
                Some(x) => connection_type_named(x) is Some,
                None => false,
            }) {
                Seq::<Seq<char>>::empty()
            } else {
                seq!["ConnectionType must be set to either 'acceptor' or 'initiator'."@]
            };
            assert(e1 =~= c);
            let b = if value_of(v, SettingOption::BeginString) is None {
                seq!["BeginString must be set."@]
            } else {
                Seq::<Seq<char>>::empty()
            };
            assert(e2 =~= c + b);
            let s = if value_of(v, SettingOption::SenderCompID) is None {
                seq!["SenderCompID must be set."@]
            } else {
                Seq::<Seq<char>>::empty()
            };
            assert(e3 =~= c + b + s);
            assert(errors@.map_values(|e: String| e@) =~= validation_errors(v));
        }
        if errors.len() > 0 {
            Err(SessionSettingsError::ValidationErrors(errors))
        } else {
            Ok(Validated(self))
        }
    }
}

impl Validated {
    pub closed spec fn values(self) -> DynamicSessionSettingBuilder {
        self.0
    }

    /// Values that passed `validate`: well formed, with a connection type.
    pub closed spec fn wf(self) -> bool {
        &&& self.0.wf()
        &&& validation_errors(self.0@).len() == 0
    }

    /// The setting that the values describe, or the setting whose value
    /// cannot be read or that the schedule lacks.
    pub fn build(self) -> (r: Result<SessionSetting, SessionSettingsError>)
        requires
            self.wf(),
        ensures
            match schedule_of(self.values()@) {
                Ok(sched) => r matches Ok(s) && setting_is(s, self.values()@, sched),
                Err((o, x)) => r matches Err(SessionSettingsError::InvalidValue { setting, value })
                    && setting == o && value@ == x,
            },
    {
        self.0.build()
    }
}

/// A refused value of a setting.
fn invalid(setting: SettingOption, value: &str) -> (r: SessionSettingsError)
    ensures
        r matches SessionSettingsError::InvalidValue { setting: s, value: v } && s == setting && v@ == value@,
{
    SessionSettingsError::InvalidValue { setting, value: value.to_owned() }
}

impl DynamicSessionSettingBuilder {
    /// The time zone set and known, if any.
    fn timezone(&self) -> (r: Option<String>)
        requires
            self.wf(),
        ensures
            opt_view(r) == timezone_of(self@),
    {
        match self.get(SettingOption::TimeZone) {
            Some(tz) => if is_timezone(tz.as_str()) {
                Some(tz.clone())
            } else {
                None
            },
            None => None,
        }
    }

    /// The schedule that the values describe.
    fn schedule(&self) -> (r: Result<SessionSchedule, SessionSettingsError>)
        requires
            self.wf(),
        ensures
            match schedule_of(self@) {
                Ok(m) => r matches Ok(s) && schedule_is(s, m),
                Err((o, x)) => r matches Err(SessionSettingsError::InvalidValue { setting, value })
                    && setting == o && value@ == x,
            },
    {
        let sd = self.get(SettingOption::StartDay);
        let ed = self.get(SettingOption::EndDay);
        let st = self.get(SettingOption::StartTime);
        let et = self.get(SettingOption::EndTime);
        let any_set = sd.is_some() || ed.is_some() || et.is_some() || st.is_some();
        if self.flag(SettingOption::NonStopSession, true) && !any_set {
            return Ok(SessionSchedule::NonStop);
        }
        match (sd, ed, st, et) {
            (Some(sd), Some(ed), Some(st), Some(et)) => {
                let start_day = match parse_weekday(sd.as_str()) {
                    None => {
                        return Err(invalid(SettingOption::StartDay, sd.as_str()));
                    },
                    Some(d) => d,
                };
                let end_day = match parse_weekday(ed.as_str()) {
                    None => {
                        return Err(invalid(SettingOption::EndDay, ed.as_str()));
                    },
                    Some(d) => d,
                };
                let start_time = match parse_time_hms(st.as_str()) {
                    None => {
                        return Err(invalid(SettingOption::StartTime, st.as_str()));
                    },
                    Some(t) => t,
                };
                let end_time = match parse_time_hms(et.as_str()) {
                    None => {
                        return Err(invalid(SettingOption::EndTime, et.as_str()));
                    },
                    Some(t) => t,
                };
                let use_localtime = self.flag(SettingOption::UseLocalTime, false);
                let timezone = self.timezone();
                Ok(SessionSchedule::Weekly { start_day, end_day, start_time, end_time, timezone, use_localtime })
            },
            (None, None, Some(st), Some(et)) => {
                let start_time = match parse_time_hms(st.as_str()) {
                    None => {
                        return Err(invalid(SettingOption::StartTime, st.as_str()));
                    },
                    Some(t) => t,
                };
                let end_time = match parse_time_hms(et.as_str()) {
                    None => {
                        return Err(invalid(SettingOption::EndTime, et.as_str()));
                    },
                    Some(t) => t,
                };
                let use_localtime = self.flag(SettingOption::UseLocalTime, false);
                let timezone = self.timezone();
                Ok(SessionSchedule::Daily { start_time, end_time, timezone, use_localtime })
            },
            (sd, ed, st, et) => {
                proof {
                    reveal_strlit("");
                }
                if !any_set && self.get(SettingOption::TimeZone).is_none() {
                    Ok(SessionSchedule::NonStop)
                } else if st.is_none() {
                    Err(invalid(SettingOption::StartTime, ""))
                } else if et.is_none() {
                    Err(invalid(SettingOption::EndTime, ""))
                } else if sd.is_none() {
                    Err(invalid(SettingOption::StartDay, ""))
                } else {
                    Err(invalid(SettingOption::EndDay, ""))
                }
            },
        }
    }

    /// The setting that the values describe.
    fn build(self) -> (r: Result<SessionSetting, SessionSettingsError>)
        requires
            self.wf(),
            validation_errors(self@).len() == 0,
        ensures
            match schedule_of(self@) {
                Ok(sched) => r matches Ok(s) && setting_is(s, self@, sched),
                Err((o, x)) => r matches Err(SessionSettingsError::InvalidValue { setting, value })
                    && setting == o && value@ == x,
            },
    {
        let connection = match self.get(SettingOption::ConnectionType) {
            Some(t) if str_eq(t.as_str(), "acceptor") => SettingsConnection::Acceptor {
                is_dynamic: self.flag(SettingOption::IsDynamic, false),
                session_qualifier: self.text(SettingOption::SessionQualifier),
                accept_host: self.text(SettingOption::SocketAcceptHost),
                accept_port: self.text(SettingOption::SocketAcceptPort),
            },
            _ => SettingsConnection::Initiator {
                connect_host: self.text(SettingOption::SocketConnectHost),
                connect_port: self.text(SettingOption::SocketConnectPort),
                reconnect_interval: self.number(SettingOption::ReconnectInterval, 30),
                heart_bt_int: self.number(SettingOption::HeartBtInt, 30),
                logon_timeout: self.number(SettingOption::LogonTimeout, 10),
                logout_timeout: self.number(SettingOption::LogoutTimeout, 2),
            },
        };
        let socket_options = SocketOptions {
            no_delay: self.flag(SettingOption::SocketNodelay, true),
            receive_buffer_size: self.number(SettingOption::SocketReceiveBufferSize, 8192),
            send_buffer_size: self.number(SettingOption::SocketSendBufferSize, 8192),
            receive_timeout: self.number(SettingOption::SocketReceiveTimeout, 0),
            send_timeout: self.number(SettingOption::SocketSendTimeout, 0),
        };
        let logging = LoggingOptions {
            file_log_path: self.text(SettingOption::FileLogPath),
            debug_file_log_path: self.text(SettingOption::FileLogPath),
        };
        let persistence = if self.flag(SettingOption::PersistMessages, true) {
            match self.text(SettingOption::FileStorePath) {
                Some(path) => Persistence::FileStore { path },
                None => Persistence::Memory,
            }
        } else {
            Persistence::NoPersistence
        };
        let schedule = match self.schedule() {
            Err(e) => {
                return Err(e);
            },
            Ok(s) => s,
        };
        let time_stamp_precision = match self.text(SettingOption::TimeStampPrecision) {
            Some(x) => match DateTimeFormat::try_from(x) {
                Ok(f) => f,
                Err(_) => DateTimeFormat::Seconds,
            },
            None => DateTimeFormat::Seconds,
        };
        let validation_options = ValidationOptions {
            milliseconds_in_time_stamp: self.flag(SettingOption::MillisecondsInTimeStamp, false),
            refresh_on_logon: self.flag(SettingOption::RefreshOnLogon, false),
            reset_on_logon: self.flag(SettingOption::ResetOnLogon, false),
            reset_on_logout: self.flag(SettingOption::ResetOnLogout, false),
            reset_on_disconnect: self.flag(SettingOption::ResetOnDisconnect, false),
            send_redundant_resend_requests: self.flag(SettingOption::SendRedundantResendRequests, false),
            resend_session_level_rejects: self.flag(SettingOption::ResendSessionLevelRejects, false),
            time_stamp_precision,
            enable_last_msg_seq_num_processed: self.flag(SettingOption::EnableLastMsgSeqNumProcessed, false),
            max_messages_in_resend_request: self.number(SettingOption::MaxMessagesInResendRequest, 0),
            send_logout_before_disconnect_from_timeout: self.flag(
                SettingOption::SendLogoutBeforeDisconnectFromTimeout,
                false,
            ),
            ignore_poss_dup_resend_requests: self.flag(SettingOption::IgnorePossDupResendRequests, false),
            requires_orig_sending_time: self.flag(SettingOption::RequiresOrigSendingTime, true),
            use_data_dictionary: self.flag(SettingOption::UseDataDictionary, false),
            data_dictionary: self.text(SettingOption::DataDictionary),
            transport_data_dictionary: self.text(SettingOption::TransportDataDictionary),
            app_data_dictionary: self.text(SettingOption::AppDataDictionary),
            validate_fields_out_of_order: self.flag(SettingOption::ValidateFieldsOutOfOrder, true),
            validate_fields_have_values: self.flag(SettingOption::ValidateFieldsHaveValues, true),
            validate_user_defined_fields: self.flag(SettingOption::ValidateUserDefinedFields, true),
            validate_length_and_checksum: self.flag(SettingOption::ValidateLengthAndChecksum, true),
            allow_unknown_msg_fields: self.flag(SettingOption::AllowUnknownMsgFields, false),
            check_latency: self.flag(SettingOption::CheckLatency, true),
            max_latency: self.number(SettingOption::MaxLatency, 120),
        };
        Ok(SessionSetting {
            begin_string: self.text_or_empty(SettingOption::BeginString),
            sender_comp_id: self.text_or_empty(SettingOption::SenderCompID),
            sender_sub_id: self.text_or_empty(SettingOption::SenderSubID),
            sender_location_id: self.text_or_empty(SettingOption::SenderLocationID),
            target_comp_id: self.text_or_empty(SettingOption::TargetCompID),
            target_sub_id: self.text_or_empty(SettingOption::TargetSubID),
            target_location_id: self.text_or_empty(SettingOption::TargetLocationID),
            connection,
            socket_options,
            logging,
            persistence,
            default_appl_ver_id: self.text(SettingOption::DefaultApplVerID),
            schedule,
            validation_options,
        })
    }
}

} // verus!
