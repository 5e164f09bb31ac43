use dfx::session::session_flow::{disconnect_plan, outgoing_reset};
use dfx::session::SessionId;
use dfx::session::session_flow::{
    logon_outcome, logon_prelude, logout_reply, LogonOutcome, LogonPrelude,
};
use dfx::session::session_flow::{
    is_supported_version, not_logged_on_reason, route_message, tick_reason_text, tick_step,
    validates_with_app_dictionary, MessageRoute, TickAction, TickReason, TickStage, TickView,
};

fn view() -> TickView {
    TickView {
        has_responder: true,
        session_time: true,
        is_initiator: true,
        new_session: false,
        enabled: true,
        logged_on: true,
        sent_logon: true,
        sent_logout: false,
        received_logon: true,
        should_send_logon: false,
        time_to_generate_logon: true,
        logon_timed_out: false,
        logout_timed_out: false,
        within_heartbeat: false,
        heartbeat_int: 30,
        timed_out: false,
        need_test_request: false,
        need_heartbeat: true,
        send_logout_before_timeout_disconnect: false,
    }
}

#[test]
fn messages_go_to_their_handlers() {
    assert_eq!(route_message("A", false), MessageRoute::Logon);
    assert_eq!(route_message("5", false), MessageRoute::Logout);
    assert_eq!(route_message("0", false), MessageRoute::NotLoggedOn);
    assert_eq!(route_message("D", false), MessageRoute::NotLoggedOn);
    assert_eq!(route_message("0", true), MessageRoute::Heartbeat);
    assert_eq!(route_message("1", true), MessageRoute::TestRequest);
    assert_eq!(route_message("4", true), MessageRoute::SequenceReset);
    assert_eq!(route_message("2", true), MessageRoute::ResendRequest);
    assert_eq!(route_message("3", true), MessageRoute::Verify);
    assert_eq!(route_message("D", true), MessageRoute::Verify);
    assert_eq!(not_logged_on_reason("D"), "Received msg type 'D' when not logged on");
}

#[test]
fn dictionaries_and_versions() {
    assert!(validates_with_app_dictionary(true, "D"));
    assert!(!validates_with_app_dictionary(true, "A"));
    assert!(!validates_with_app_dictionary(false, "D"));
    assert!(is_supported_version("FIX.4.4", "FIX.4.4"));
    assert!(!is_supported_version("FIX.4.2", "FIX.4.4"));
}

#[test]
fn tick_without_counterparty_does_nothing() {
    let v = TickView { has_responder: false, ..view() };
    let s = tick_step(TickStage::Start, &v);
    assert_eq!(s.action, TickAction::Nothing);
    assert_eq!(s.next, None);
}

#[test]
fn tick_of_a_quiet_session_sends_a_heartbeat() {
    let v = view();
    let mut stage = TickStage::Start;
    let mut actions = Vec::new();
    loop {
        let s = tick_step(stage, &v);
        actions.push(s.action);
        match s.next {
            Some(n) => stage = n,
            None => break,
        }
    }
    assert_eq!(actions.first(), Some(&TickAction::ProcessOutbound));
    assert_eq!(actions.last(), Some(&TickAction::GenerateHeartbeat));
}

#[test]
fn tick_out_of_session_time_resets() {
    let v = TickView { session_time: false, is_initiator: false, ..view() };
    let s = tick_step(TickStage::SessionTime, &v);
    assert_eq!(s.action, TickAction::Reset { reason: TickReason::OutOfSessionTime, with_logout_text: true });
    assert_eq!(s.next, None);
    assert_eq!(tick_reason_text(TickReason::OutOfSessionTime), "Out of SessionTime (Session.next())");
}

#[test]
fn tick_heartbeat_timeout_logs_out_then_disconnects() {
    let v = TickView { timed_out: true, send_logout_before_timeout_disconnect: true, ..view() };
    let s = tick_step(TickStage::Heartbeat, &v);
    assert_eq!(s.action, TickAction::GenerateLogout);
    assert_eq!(s.next, Some(TickStage::HeartbeatDisconnect));
    let s = tick_step(TickStage::HeartbeatDisconnect, &v);
    assert_eq!(s.action, TickAction::Disconnect { reason: TickReason::HeartbeatTimeout });
    assert_eq!(tick_reason_text(TickReason::HeartbeatTimeout), "Timed out waiting for heartbeat");
}

#[test]
fn tick_waits_for_logon() {
    let v = TickView { received_logon: false, logged_on: false, should_send_logon: true, sent_logon: false, ..view() };
    assert_eq!(tick_step(TickStage::Logon, &v).action, TickAction::GenerateLogon);
    let v = TickView { received_logon: false, should_send_logon: false, logon_timed_out: true, ..view() };
    assert_eq!(
        tick_step(TickStage::Logon, &v).action,
        TickAction::Disconnect { reason: TickReason::LogonRequestTimeout }
    );
}

#[test]
fn logon_asking_for_reset_resets_unless_we_did() {
    let p = logon_prelude(Some(true), false, false, true, false);
    assert_eq!(
        p,
        LogonPrelude { received_reset: true, reset_by_counterparty: true, reset_on_logon: true, refresh: false }
    );
    let p = logon_prelude(Some(true), true, true, true, true);
    assert!(p.received_reset);
    assert!(!p.reset_by_counterparty);
    assert!(!p.reset_on_logon);
    assert!(p.refresh);
    assert!(!logon_prelude(None, false, false, false, false).received_reset);
    assert!(!logon_prelude(Some(false), false, false, false, false).received_reset);
}

#[test]
fn verified_logon_outcomes() {
    assert_eq!(logon_outcome(false, true, 1, 1, false), LogonOutcome::BadSendingTime);
    assert_eq!(logon_outcome(true, false, 5, 2, false), LogonOutcome::Received { respond: true, target_too_high: true });
    assert_eq!(logon_outcome(true, true, 5, 2, true), LogonOutcome::Received { respond: false, target_too_high: false });
    assert_eq!(logon_outcome(true, true, 2, 2, false), LogonOutcome::Received { respond: false, target_too_high: false });
}

#[test]
fn logout_is_answered_once() {
    let r = logout_reply(false, true);
    assert_eq!(r.reason, "Received logout request");
    assert!(r.send_logout);
    assert!(r.reset);
    let r = logout_reply(true, false);
    assert_eq!(r.reason, "Received logout response");
    assert!(!r.send_logout);
    assert!(!r.reset);
}

#[test]
fn disconnection_says_what_it_does() {
    let id = SessionId::new("FIX.4.4", "S", "", "", "T", "", "");
    let p = disconnect_plan(&id, true, "bad sending time", true, false, false);
    assert_eq!(p.event, "Session FIX.4.4:S->T disconnecting: bad sending time");
    assert!(p.notify_logout);
    assert!(!p.reset);
    let p = disconnect_plan(&id, false, "Resetting...", false, false, true);
    assert_eq!(p.event, "Session FIX.4.4:S->T already disconnected: Resetting...");
    assert!(!p.notify_logout);
    assert!(p.reset);
}

#[test]
fn outgoing_logon_resets_on_flag() {
    assert_eq!(outgoing_reset("A", false, Some("Y")), Some(true));
    assert_eq!(outgoing_reset("A", false, Some("N")), Some(false));
    assert_eq!(outgoing_reset("A", false, None), Some(false));
    assert_eq!(outgoing_reset("A", true, Some("Y")), None);
    assert_eq!(outgoing_reset("0", false, Some("Y")), None);
}

#[test]
fn making_a_session_decides_its_dictionaries_and_defaults() {
    use_setup();
}

fn use_setup() {
    let s = dfx::session::session_flow::session_setup(
        true,
        &dfx::session::session_schedule::SessionSchedule::NonStop,
        dfx::session::session_schedule::UtcTime { secs: 1_700_000_000, nanos: 0 },
    );
    assert!(s.app_dictionary_by_appl_ver_id);
    assert_eq!(s.reset_reason, "New session");
    assert_eq!(s.event, "Created session");
    assert!(s.config.persist_messages);
    assert_eq!(s.config.max_latency, 120);
    assert_eq!(s.config.time_stamp_precision.as_datetime_format(), "%Y%m%d-%H:%M:%S.%3f");
}
