//! The course of a session: where a received message goes, and what each
//! tick of the session's clock does. The session reads what these
//! decisions need from its state, carries out the step decided, and asks
//! again with what it reads then.
use vstd::prelude::*;

use crate::fields::converters::datetime::DateTimeFormat;
use crate::session::session_id::SessionId;
use crate::session::session_logic::creation_reset_reason;
use crate::session::session_schedule::{session_time, utc_time_ok, SessionSchedule, UtcTime};
use crate::session::session_logic::admin_msg_type;
use crate::text::{concat_strs, str_eq};

verus! {

/// Where a received message goes once it is read and validated.
#[derive(Debug, Clone, Copy, PartialEq, Eq, Structural)]
pub enum MessageRoute {
    Logon,
    Logout,
    /// Any other message while the session is not logged on: disconnect.
    NotLoggedOn,
    Heartbeat,
    TestRequest,
    SequenceReset,
    ResendRequest,
    /// Any other message: verified, then the next expected sequence number
    /// is raised where it passes.
    Verify,
}

/// Where a message of type `msg_type` goes: a logon or logout to its
/// handler; anything else is refused while the session is not logged on;
/// then heartbeats, test requests, sequence resets and resend requests to
/// their handlers, and the rest to verification.
pub open spec fn route(msg_type: Seq<char>, logged_on: bool) -> MessageRoute {
    if msg_type == "A"@ {
        MessageRoute::Logon
    } else if msg_type == "5"@ {
        MessageRoute::Logout
    } else if !logged_on {
        MessageRoute::NotLoggedOn
    } else if msg_type == "0"@ {
        MessageRoute::Heartbeat
    } else if msg_type == "1"@ {
        MessageRoute::TestRequest
    } else if msg_type == "4"@ {
        MessageRoute::SequenceReset
    } else if msg_type == "2"@ {
        MessageRoute::ResendRequest
    } else {
        MessageRoute::Verify
    }
}

/// Where a message of type `msg_type` goes, the session being logged on
/// or not.
pub fn route_message(msg_type: &str, logged_on: bool) -> (r: MessageRoute)
    ensures
        r == route(msg_type@, logged_on),
{
    if str_eq(msg_type, "A") {
        MessageRoute::Logon
    } else if str_eq(msg_type, "5") {
        MessageRoute::Logout
    } else if !logged_on {
        MessageRoute::NotLoggedOn
    } else if str_eq(msg_type, "0") {
        MessageRoute::Heartbeat
    } else if str_eq(msg_type, "1") {
        MessageRoute::TestRequest
    } else if str_eq(msg_type, "4") {
        MessageRoute::SequenceReset
    } else if str_eq(msg_type, "2") {
        MessageRoute::ResendRequest
    } else {
        MessageRoute::Verify
    }
}

/// The reason of the disconnection when a message comes before the logon.
pub fn not_logged_on_reason(msg_type: &str) -> (r: String)
    ensures
        r@ == "Received msg type '"@ + msg_type@ + "' when not logged on"@,
{
    let a = concat_strs("Received msg type '", msg_type);
    concat_strs(a.as_str(), "' when not logged on")
}

/// Whether a received message is validated against the application's
/// dictionary: for an application message of a FIXT session; otherwise
/// against the session's.
pub fn validates_with_app_dictionary(is_fixt: bool, msg_type: &str) -> (r: bool)
    ensures
        r == (is_fixt && !admin_msg_type(msg_type@)),
{
    let admin = str_eq(msg_type, "0") || str_eq(msg_type, "A") || str_eq(msg_type, "1") || str_eq(msg_type, "2")
        || str_eq(msg_type, "3") || str_eq(msg_type, "4") || str_eq(msg_type, "5");
    is_fixt && !admin
}

/// Whether the version of a received message is that of the session: a
/// message of another version is refused as unsupported.
pub fn is_supported_version(begin_string: &str, session_begin_string: &str) -> (r: bool)
    ensures
        r == (begin_string@ == session_begin_string@),
{
    str_eq(begin_string, session_begin_string)
}

/// What the session reads from its state at each step of a tick.
#[derive(Debug, Clone, Copy)]
pub struct TickView {
    /// Whether the session is connected to a counterparty.
    pub has_responder: bool,
    pub session_time: bool,
    pub is_initiator: bool,
    /// Whether a new session began since the state was made or reset.
    pub new_session: bool,
    pub enabled: bool,
    /// Whether the logon was both sent and received.
    pub logged_on: bool,
    pub sent_logon: bool,
    pub sent_logout: bool,
    pub received_logon: bool,
    pub should_send_logon: bool,
    pub time_to_generate_logon: bool,
    pub logon_timed_out: bool,
    pub logout_timed_out: bool,
    pub within_heartbeat: bool,
    pub heartbeat_int: u32,
    pub timed_out: bool,
    pub need_test_request: bool,
    pub need_heartbeat: bool,
    /// Whether a logout is sent before a disconnection for a missed heartbeat.
    pub send_logout_before_timeout_disconnect: bool,
}

/// Where a tick stands.
#[derive(Debug, Clone, Copy, PartialEq, Eq, Structural)]
pub enum TickStage {
    Start,
    SessionTime,
    NewSession,
    Enabled,
    Logon,
    LogoutTimeout,
    Heartbeat,
    HeartbeatDisconnect,
}

/// The reasons a tick gives for what it does.
#[derive(Debug, Clone, Copy, PartialEq, Eq, Structural)]
pub enum TickReason {
    /// "Out of SessionTime (Session.next())"
    OutOfSessionTime,
    /// "New session (detected in Next())"
    NewSession,
    /// "Timed out waiting for logon request"
    LogonRequestTimeout,
    /// "Timed out waiting for logon response"
    LogonResponseTimeout,
    /// "Timed out waiting for logout response"
    LogoutResponseTimeout,
    /// "Timed out waiting for heartbeat"
    HeartbeatTimeout,
}

/// What a step of a tick does.
#[derive(Debug, Clone, Copy, PartialEq, Eq, Structural)]
pub enum TickAction {
    Nothing,
    /// Send the messages waiting to go out.
    ProcessOutbound,
    /// Log out where logged on (with the text "Message received outside of
    /// session time" where `with_logout_text`), disconnect, reset the state.
    Reset { reason: TickReason, with_logout_text: bool },
    /// Reset the state.
    ResetState { reason: TickReason },
    /// Log "Initiated logout request" and send a logout with the state's
    /// logout reason.
    InitiateLogout,
    /// Send a logon, and log whether that went well.
    GenerateLogon,
    Disconnect { reason: TickReason },
    /// Send a logout without a reason.
    GenerateLogout,
    /// Send the test request "TEST", count it, and log "Sent test request TEST".
    TestRequest,
    GenerateHeartbeat,
}

/// A step of a tick: what it does, and where the tick goes on, if it does.
#[derive(Debug, Clone, Copy, PartialEq, Eq, Structural)]
pub struct TickStep {
    pub action: TickAction,
    pub next: Option<TickStage>,
}

/// What a step of a tick does from `stage`, the state read as `v`.
pub open spec fn tick(stage: TickStage, v: TickView) -> TickStep {
    match stage {
        TickStage::Start => if !v.has_responder {
            TickStep { action: TickAction::Nothing, next: None }
        } else {
            TickStep { action: TickAction::ProcessOutbound, next: Some(TickStage::SessionTime) }
        },
        TickStage::SessionTime => if !v.session_time {
            TickStep {
                action: TickAction::Reset { reason: TickReason::OutOfSessionTime, with_logout_text: !v.is_initiator },
                next: None,
            }
        } else {
            TickStep { action: TickAction::Nothing, next: Some(TickStage::NewSession) }
        },
        TickStage::NewSession => if v.new_session {
            TickStep {
                action: TickAction::ResetState { reason: TickReason::NewSession },
                next: Some(TickStage::Enabled),
            }
        } else {
            TickStep { action: TickAction::Nothing, next: Some(TickStage::Enabled) }
        },
        TickStage::Enabled => if v.enabled {
            TickStep { action: TickAction::Nothing, next: Some(TickStage::Logon) }
        } else if !v.logged_on {
            TickStep { action: TickAction::Nothing, next: None }
        } else if !v.sent_logout {
            TickStep { action: TickAction::InitiateLogout, next: Some(TickStage::Logon) }
        } else {
            TickStep { action: TickAction::Nothing, next: Some(TickStage::Logon) }
        },
        TickStage::Logon => if v.received_logon {
            TickStep { action: TickAction::Nothing, next: Some(TickStage::LogoutTimeout) }
        } else if v.should_send_logon && v.time_to_generate_logon {
            TickStep { action: TickAction::GenerateLogon, next: None }
        } else if !v.should_send_logon && v.logon_timed_out {
            TickStep { action: TickAction::Disconnect { reason: TickReason::LogonRequestTimeout }, next: None }
        } else if v.sent_logon && v.logon_timed_out {
            TickStep { action: TickAction::Disconnect { reason: TickReason::LogonResponseTimeout }, next: None }
        } else {
            TickStep { action: TickAction::Nothing, next: None }
        },
        TickStage::LogoutTimeout => if v.logout_timed_out {
            TickStep {
                action: TickAction::Disconnect { reason: TickReason::LogoutResponseTimeout },
                next: Some(TickStage::Heartbeat),
            }
        } else {
            TickStep { action: TickAction::Nothing, next: Some(TickStage::Heartbeat) }
        },
        TickStage::Heartbeat => if v.within_heartbeat || v.heartbeat_int == 0 {
            TickStep { action: TickAction::Nothing, next: None }
        } else if v.timed_out {
            if v.send_logout_before_timeout_disconnect {
                TickStep { action: TickAction::GenerateLogout, next: Some(TickStage::HeartbeatDisconnect) }
            } else {
                TickStep { action: TickAction::Disconnect { reason: TickReason::HeartbeatTimeout }, next: None }
            }
        } else if v.need_test_request {
            TickStep { action: TickAction::TestRequest, next: None }
        } else if v.need_heartbeat {
            TickStep { action: TickAction::GenerateHeartbeat, next: None }
        } else {
            TickStep { action: TickAction::Nothing, next: None }
        },
        TickStage::HeartbeatDisconnect => TickStep {
            action: TickAction::Disconnect { reason: TickReason::HeartbeatTimeout },
            next: None,
        },
    }
}

/// The order of the stages of a tick: each step goes on to a later one,
/// so that a tick ends.
pub open spec fn stage_rank(stage: TickStage) -> nat {
    match stage {
        TickStage::Start => 0,
        TickStage::SessionTime => 1,
        TickStage::NewSession => 2,
        TickStage::Enabled => 3,
        TickStage::Logon => 4,
        TickStage::LogoutTimeout => 5,
        TickStage::Heartbeat => 6,
        TickStage::HeartbeatDisconnect => 7,
    }
}

/// What a step of a tick does from `stage`, the state read as `v`.
pub fn tick_step(stage: TickStage, v: &TickView) -> (r: TickStep)
    ensures
        r == tick(stage, *v),
        r.next matches Some(n) ==> stage_rank(stage) < stage_rank(n),
{
    match stage {
        TickStage::Start => if !v.has_responder {
            TickStep { action: TickAction::Nothing, next: None }
        } else {
            TickStep { action: TickAction::ProcessOutbound, next: Some(TickStage::SessionTime) }
        },
        TickStage::SessionTime => if !v.session_time {
            TickStep {
                action: TickAction::Reset { reason: TickReason::OutOfSessionTime, with_logout_text: !v.is_initiator },
                next: None,
            }
        } else {
            TickStep { action: TickAction::Nothing, next: Some(TickStage::NewSession) }
        },
        TickStage::NewSession => if v.new_session {
            TickStep {
                action: TickAction::ResetState { reason: TickReason::NewSession },
                next: Some(TickStage::Enabled),
            }
        } else {
            TickStep { action: TickAction::Nothing, next: Some(TickStage::Enabled) }
        },
        TickStage::Enabled => if v.enabled {
            TickStep { action: TickAction::Nothing, next: Some(TickStage::Logon) }
        } else if !v.logged_on {
            TickStep { action: TickAction::Nothing, next: None }
        } else if !v.sent_logout {
            TickStep { action: TickAction::InitiateLogout, next: Some(TickStage::Logon) }
        } else {
            TickStep { action: TickAction::Nothing, next: Some(TickStage::Logon) }
        },
        TickStage::Logon => if v.received_logon {
            TickStep { action: TickAction::Nothing, next: Some(TickStage::LogoutTimeout) }
        } else if v.should_send_logon && v.time_to_generate_logon {
            TickStep { action: TickAction::GenerateLogon, next: None }
        } else if !v.should_send_logon && v.logon_timed_out {
            TickStep { action: TickAction::Disconnect { reason: TickReason::LogonRequestTimeout }, next: None }
        } else if v.sent_logon && v.logon_timed_out {
            TickStep { action: TickAction::Disconnect { reason: TickReason::LogonResponseTimeout }, next: None }
        } else {
            TickStep { action: TickAction::Nothing, next: None }
        },
        TickStage::LogoutTimeout => if v.logout_timed_out {
            TickStep {
                action: TickAction::Disconnect { reason: TickReason::LogoutResponseTimeout },
                next: Some(TickStage::Heartbeat),
            }
        } else {
            TickStep { action: TickAction::Nothing, next: Some(TickStage::Heartbeat) }
        },
        TickStage::Heartbeat => if v.within_heartbeat || v.heartbeat_int == 0 {
            TickStep { action: TickAction::Nothing, next: None }
        } else if v.timed_out {
            if v.send_logout_before_timeout_disconnect {
                TickStep { action: TickAction::GenerateLogout, next: Some(TickStage::HeartbeatDisconnect) }
            } else {
                TickStep { action: TickAction::Disconnect { reason: TickReason::HeartbeatTimeout }, next: None }
            }
        } else if v.need_test_request {
            TickStep { action: TickAction::TestRequest, next: None }
        } else if v.need_heartbeat {
            TickStep { action: TickAction::GenerateHeartbeat, next: None }
        } else {
            TickStep { action: TickAction::Nothing, next: None }
        },
        TickStage::HeartbeatDisconnect => TickStep {
            action: TickAction::Disconnect { reason: TickReason::HeartbeatTimeout },
            next: None,
        },
    }
}

/// The text of a reason a tick gives.
pub fn tick_reason_text(reason: TickReason) -> (r: &'static str)
    ensures
        r@ == match reason {
            TickReason::OutOfSessionTime => "Out of SessionTime (Session.next())"@,
            TickReason::NewSession => "New session (detected in Next())"@,
            TickReason::LogonRequestTimeout => "Timed out waiting for logon request"@,
            TickReason::LogonResponseTimeout => "Timed out waiting for logon response"@,
            TickReason::LogoutResponseTimeout => "Timed out waiting for logout response"@,
            TickReason::HeartbeatTimeout => "Timed out waiting for heartbeat"@,
        },
{
    match reason {
        TickReason::OutOfSessionTime => "Out of SessionTime (Session.next())",
        TickReason::NewSession => "New session (detected in Next())",
        TickReason::LogonRequestTimeout => "Timed out waiting for logon request",
        TickReason::LogonResponseTimeout => "Timed out waiting for logon response",
        TickReason::LogoutResponseTimeout => "Timed out waiting for logout response",
        TickReason::HeartbeatTimeout => "Timed out waiting for heartbeat",
    }
}

/// What a received logon sets off before it is verified.
#[derive(Debug, Clone, Copy, PartialEq, Eq, Structural)]
pub struct LogonPrelude {
    /// Whether the logon asks for a reset of the sequence numbers
    /// (ResetSeqNumFlag set to Y); logged as "Sequence numbers reset due to
    /// ResetSeqNumFlag=Y".
    pub received_reset: bool,
    /// Whether the state is reset as the counterparty asked ("Reset
    /// requested by counterparty"): it asked and the session sent no reset.
    pub reset_by_counterparty: bool,
    /// Whether the state is reset for ResetOnLogon: an acceptor set so.
    pub reset_on_logon: bool,
    /// Whether the store is refreshed: RefreshOnLogon is set.
    pub refresh: bool,
}

/// What a received logon sets off before it is verified: `reset_flag` is
/// its ResetSeqNumFlag, where set.
pub fn logon_prelude(
    reset_flag: Option<bool>,
    sent_reset: bool,
    is_initiator: bool,
    reset_on_logon: bool,
    refresh_on_logon: bool,
) -> (r: LogonPrelude)
    ensures
        r.received_reset == (reset_flag == Some(true)),
        r.reset_by_counterparty == (reset_flag == Some(true) && !sent_reset),
        r.reset_on_logon == (!is_initiator && reset_on_logon),
        r.refresh == refresh_on_logon,
{
    let received_reset = match reset_flag {
        Some(f) => f,
        None => false,
    };
    LogonPrelude {
        received_reset,
        reset_by_counterparty: received_reset && !sent_reset,
        reset_on_logon: !is_initiator && reset_on_logon,
        refresh: refresh_on_logon,
    }
}

/// What a verified logon leads to.
#[derive(Debug, Clone, Copy, PartialEq, Eq, Structural)]
pub enum LogonOutcome {
    /// The logon's sending time is not good: log "Logon has bad sending
    /// time" and disconnect with "bad sending time".
    BadSendingTime,
    /// The logon is received: an acceptor takes its heartbeat interval and
    /// answers with a logon; the resets are forgotten; a sequence number
    /// above the expected one starts a resend request (unless the logon
    /// asked for a reset), else the next expected number is raised.
    Received { respond: bool, target_too_high: bool },
}

/// What a verified logon numbered `msg_seq_num` leads to.
pub fn logon_outcome(good_time: bool, is_initiator: bool, msg_seq_num: u32, next_target: u32, received_reset: bool) -> (r: LogonOutcome)
    ensures
        r == if !good_time {
            LogonOutcome::BadSendingTime
        } else {
            LogonOutcome::Received { respond: !is_initiator, target_too_high: msg_seq_num > next_target && !received_reset }
        },
{
    if !good_time {
        LogonOutcome::BadSendingTime
    } else {
        LogonOutcome::Received { respond: !is_initiator, target_too_high: msg_seq_num > next_target && !received_reset }
    }
}

/// What a verified logout leads to: the reason logged and given for the
/// disconnection, whether a logout is sent back, and whether the state is
/// reset ("ResetOnLogout", which follows the ResetOnLogon setting).
#[derive(Debug, Clone, Copy)]
pub struct LogoutReply {
    pub reason: &'static str,
    pub send_logout: bool,
    pub reset: bool,
}

/// What a verified logout leads to: an answer where the session sent no
/// logout, then the next expected number is raised and the session
/// disconnects.
pub fn logout_reply(sent_logout: bool, reset_on_logon: bool) -> (r: LogoutReply)
    ensures
        r.reason@ == if sent_logout {
            "Received logout response"@
        } else {
            "Received logout request"@
        },
        r.send_logout == !sent_logout,
        r.reset == reset_on_logon,
{
    if !sent_logout {
        LogoutReply { reason: "Received logout request", send_logout: true, reset: reset_on_logon }
    } else {
        LogoutReply { reason: "Received logout response", send_logout: false, reset: reset_on_logon }
    }
}

/// What a disconnection does: the event logged, whether the application
/// hears of the logout, and whether the state is reset ("ResetOnDisconnect").
/// Besides, the logout and resets sent and received, the queue, the logout
/// reason and the resend range are forgotten.
pub struct DisconnectPlan {
    pub event: String,
    pub notify_logout: bool,
    pub reset: bool,
}

/// What a disconnection of the session `session_id` for `reason` does:
/// where it is connected, "Session <id> disconnecting: <reason>" and the
/// connection is closed, else "Session <id> already disconnected:
/// <reason>"; the application hears of the logout where a logon was sent
/// or received.
pub fn disconnect_plan(
    session_id: &SessionId,
    connected: bool,
    reason: &str,
    received_logon: bool,
    sent_logon: bool,
    reset_on_disconnect: bool,
) -> (r: DisconnectPlan)
    ensures
        r.event@ == "Session "@ + session_id.id@ + (if connected {
            " disconnecting: "@
        } else {
            " already disconnected: "@
        }) + reason@,
        r.notify_logout == (received_logon || sent_logon),
        r.reset == reset_on_disconnect,
{
    let a = concat_strs("Session ", session_id.id.as_str());
    let b = if connected {
        concat_strs(a.as_str(), " disconnecting: ")
    } else {
        concat_strs(a.as_str(), " already disconnected: ")
    };
    let event = concat_strs(b.as_str(), reason);
    DisconnectPlan { event, notify_logout: received_logon || sent_logon, reset: reset_on_disconnect }
}

/// Whether an outgoing message of type `msg_type` resets the session's
/// sequence numbers: for a logon, where no reset was received, whether its
/// ResetSeqNumFlag (`reset_flag`, where set) is "Y"; nothing for any other
/// message. A reset logon is then renumbered with the reset state's next
/// sequence number.
pub fn outgoing_reset(msg_type: &str, received_reset: bool, reset_flag: Option<&str>) -> (r: Option<bool>)
    ensures
        r == if msg_type@ == "A"@ && !received_reset {
            Some(
                match reset_flag {
                    Some(f) => f@ == "Y"@,
                    None => false,
                },
            )
        } else {
            None
        },
{
    if str_eq(msg_type, "A") && !received_reset {
        Some(
            match reset_flag {
                Some(f) => str_eq(f, "Y"),
                None => false,
            },
        )
    } else {
        None
    }
}

/// The configuration a session starts with, before the values of its
/// settings are applied.
#[derive(Debug, Clone, Copy, PartialEq, Eq, Structural)]
pub struct SessionDefaults {
    pub persist_messages: bool,
    pub reset_on_disconnect: bool,
    pub send_redundant_resend_requests: bool,
    pub resend_session_level_rejects: bool,
    pub validate_length_and_checksum: bool,
    pub check_comp_id: bool,
    pub time_stamp_precision: DateTimeFormat,
    pub enable_last_msg_seq_num_processed: bool,
    pub max_messages_in_resend_request: u32,
    pub send_logout_before_timeout_disconnect: bool,
    pub ignore_poss_dup_resend_requests: bool,
    pub requires_orig_sending_time: bool,
    pub check_latency: bool,
    pub max_latency: u32,
    pub refresh_on_logon: bool,
    pub reset_on_logon: bool,
    pub reset_on_logout: bool,
}

/// The starting configuration: messages are kept, lengths, checksums, comp
/// ids and latency (up to 120 s) are checked, an original sending time is
/// required of possible duplicates, timestamps carry milliseconds, and
/// every other option is off (no limit on the messages of a resend request).
pub open spec fn default_config() -> SessionDefaults {
    SessionDefaults {
        persist_messages: true,
        reset_on_disconnect: false,
        send_redundant_resend_requests: false,
        resend_session_level_rejects: false,
        validate_length_and_checksum: true,
        check_comp_id: true,
        time_stamp_precision: DateTimeFormat::Milliseconds,
        enable_last_msg_seq_num_processed: false,
        max_messages_in_resend_request: 0,
        send_logout_before_timeout_disconnect: false,
        ignore_poss_dup_resend_requests: false,
        requires_orig_sending_time: true,
        check_latency: true,
        max_latency: 120,
        refresh_on_logon: false,
        reset_on_logon: false,
        reset_on_logout: false,
    }
}

/// What making a session decides: whether its application dictionary is
/// asked for by its default ApplVerID (a FIXT session) or is its session
/// dictionary, why its new state is reset, the event it logs once the
/// application has heard of it, and its starting configuration.
pub struct SessionSetup {
    pub app_dictionary_by_appl_ver_id: bool,
    pub reset_reason: &'static str,
    pub event: &'static str,
    pub config: SessionDefaults,
}

/// What making a session with the identity's `is_fixt`, on `schedule`, at
/// `now` decides.
pub fn session_setup(is_fixt: bool, schedule: &SessionSchedule, now: UtcTime) -> (r: SessionSetup)
    requires
        utc_time_ok(now),
    ensures
        r.app_dictionary_by_appl_ver_id == is_fixt,
        r.reset_reason@ == (if session_time(*schedule, now) {
            "New session"@
        } else {
            "Out of SessionTime (Session construction)"@
        }),
        r.event@ == "Created session"@,
        r.config == default_config(),
{
    SessionSetup {
        app_dictionary_by_appl_ver_id: is_fixt,
        reset_reason: creation_reset_reason(schedule, now),
        event: "Created session",
        config: SessionDefaults {
            persist_messages: true,
            reset_on_disconnect: false,
            send_redundant_resend_requests: false,
            resend_session_level_rejects: false,
            validate_length_and_checksum: true,
            check_comp_id: true,
            time_stamp_precision: DateTimeFormat::Milliseconds,
            enable_last_msg_seq_num_processed: false,
            max_messages_in_resend_request: 0,
            send_logout_before_timeout_disconnect: false,
            ignore_poss_dup_resend_requests: false,
            requires_orig_sending_time: true,
            check_latency: true,
            max_latency: 120,
            refresh_on_logon: false,
            reset_on_logon: false,
            reset_on_logout: false,
        },
    }
}

} // verus!
