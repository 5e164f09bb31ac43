use dfx::session::session_logic::{
    do_poss_dup, generate_reject, generate_resend_request, is_correct_comp_id, is_good_time, needs_resend_request,
    next_sequence_reset, resend_progress_of, should_send_reset, str_le, str_lt, too_low_error, verify_opt,
    PossDupAction, ResendProgress, SequenceResetAction, VerifyOutcome,
};
use dfx::field_map::FieldMap;
use dfx::session::session_logic::{creation_reset_reason, generate_logon, sending_time_format};
use dfx::session::session_schedule::{SessionSchedule, UtcTime};
use dfx::session::ResetRange;

#[test]
fn text_order_is_that_of_str() {
    assert!(str_lt("FIX.4.2", "FIX.4.4"));
    assert!(str_lt("FIX.4", "FIX.4.2"));
    assert!(!str_lt("FIX.4.2", "FIX.4.2"));
    assert!(str_le("FIX.4.2", "FIX.4.2"));
    assert!(str_lt("FIX.4.4", "FIXT.1.1"));
    assert!(!str_le("FIX.4.3", "FIX.4.2"));
}

#[test]
fn reject_in_fix44_names_the_field() {
    let plan = generate_reject("FIX.4.4", Some("D"), Some(7), "Invalid Tag", Some(9999), 7, true);
    assert_eq!(
        plan.fields,
        vec![
            (34, "7".to_string()),
            (372, "D".to_string()),
            (373, "Invalid Tag".to_string()),
            (371, "9999".to_string()),
            (58, "Invalid Tag".to_string()),
        ]
    );
    assert!(plan.incr_next_target);
    assert!(plan.send);
}

#[test]
fn reject_in_fix41_writes_the_field_in_the_text() {
    let plan = generate_reject("FIX.4.1", None, None, "Required Tag", Some(58), 3, false);
    assert_eq!(plan.fields, vec![(58, "Required Tag (58)".to_string())]);
    assert!(!plan.incr_next_target);
    assert!(!plan.send);
}

#[test]
fn reject_of_a_logon_keeps_the_sequence() {
    let plan = generate_reject("FIX.4.2", Some("A"), Some(1), "Comp ID", None, 1, true);
    assert!(!plan.incr_next_target);
    assert_eq!(plan.fields, vec![(34, "1".to_string()), (372, "A".to_string()), (373, "Comp ID".to_string()), (58, "Comp ID".to_string())]);
}

#[test]
fn resend_request_ranges() {
    assert_eq!(generate_resend_request("FIX.4.4", 5, 20, 0), (5, 19, 0));
    assert_eq!(generate_resend_request("FIX.4.0", 5, 20, 0), (5, 19, 99999));
    assert_eq!(generate_resend_request("FIX.4.4", 5, 20, 4), (5, 19, 8));
    assert_eq!(generate_resend_request("FIX.4.4", 5, 7, 100), (5, 6, 6));
}

#[test]
fn resend_progress_and_redundancy() {
    let range = ResetRange { begin_seq_num: 5, end_seq_num: 19, chunk_end_seq_num: Some(8) };
    assert_eq!(resend_progress_of(range, 19, 4), ResendProgress::Satisfied);
    assert_eq!(resend_progress_of(range, 8, 4), ResendProgress::NextChunk { begin: 9, end: 12 });
    assert_eq!(resend_progress_of(range, 6, 4), ResendProgress::Waiting);
    assert!(!needs_resend_request(Some(range), false, 10));
    assert!(needs_resend_request(Some(range), true, 10));
    assert!(needs_resend_request(None, false, 10));
}

#[test]
fn verification_decisions() {
    assert_eq!(verify_opt(false, true, true, 5, 5, None, 0, true, "0"), (VerifyOutcome::CompIdProblem, None));
    assert_eq!(verify_opt(true, true, true, 6, 5, None, 0, true, "0"), (VerifyOutcome::TargetTooHigh(6), None));
    assert_eq!(verify_opt(true, true, true, 4, 5, None, 0, true, "0"), (VerifyOutcome::TargetTooLow(4), None));
    assert_eq!(verify_opt(true, false, false, 4, 5, None, 0, true, "D"), (VerifyOutcome::Deliver { admin: false }, None));
    assert_eq!(verify_opt(true, true, true, 5, 5, None, 0, false, "0"), (VerifyOutcome::SendingTimeProblem, None));
    let range = ResetRange { begin_seq_num: 1, end_seq_num: 5, chunk_end_seq_num: None };
    assert_eq!(
        verify_opt(true, true, true, 5, 5, Some(range), 0, true, "5"),
        (VerifyOutcome::Deliver { admin: true }, Some(ResendProgress::Satisfied))
    );
}

#[test]
fn other_session_decisions() {
    assert!(should_send_reset("FIX.4.4", true, false, false, 3, 3));
    assert!(!should_send_reset("FIX.4.0", true, false, false, 3, 3));
    assert!(should_send_reset("FIX.4.0", false, false, true, 1, 1));
    assert!(is_correct_comp_id(true, "S", "T", "S", "T"));
    assert!(!is_correct_comp_id(true, "S", "T", "T", "S"));
    assert!(is_correct_comp_id(false, "S", "T", "T", "S"));
    assert_eq!(next_sequence_reset(10, 5), SequenceResetAction::SetNextTarget(10));
    assert_eq!(next_sequence_reset(3, 5), SequenceResetAction::Reject);
    assert_eq!(next_sequence_reset(5, 5), SequenceResetAction::Ignore);
    assert_eq!(too_low_error(10, 3), "MsgSeqNum too low, expecting 10 but received 3");
}

#[test]
fn latency_and_duplicates() {
    let now = UtcTime { secs: 1000, nanos: 0 };
    assert!(is_good_time(true, now, UtcTime { secs: 880, nanos: 0 }, 120));
    assert!(!is_good_time(true, now, UtcTime { secs: 879, nanos: 0 }, 120));
    assert!(is_good_time(true, now, UtcTime { secs: 1120, nanos: 500 }, 120));
    assert!(is_good_time(false, now, UtcTime { secs: 0, nanos: 0 }, 120));
    let sending = UtcTime { secs: 1000, nanos: 0 };
    assert_eq!(do_poss_dup("4", false, None, sending), PossDupAction::Accept);
    assert_eq!(do_poss_dup("D", true, None, sending), PossDupAction::RejectMissingOrigSendingTime);
    assert_eq!(do_poss_dup("D", true, Some(UtcTime { secs: 1002, nanos: 0 }), sending), PossDupAction::RejectSendingTime);
    assert_eq!(do_poss_dup("D", true, Some(UtcTime { secs: 999, nanos: 0 }), sending), PossDupAction::Accept);
}

#[test]
fn header_is_initialized_with_the_session_identity() {
    let id = dfx::session::SessionId::new("FIX.4.4", "S", "", "SL", "T", "TS", "");
    let mut header = FieldMap::new();
    header.set_field(35, "0");
    dfx::session::session_logic::initialize_header(&mut header, &id, 0, 12, 7, false, "20240101-10:00:00.000");
    assert_eq!(
        header.calculate_string(None),
        "8=FIX.4.4\x0134=12\x0135=0\x0149=S\x0152=20240101-10:00:00.000\x0156=T\x0157=TS\x01142=SL\x01"
    );
    let mut header = FieldMap::new();
    dfx::session::session_logic::initialize_header(&mut header, &id, 3, 12, 7, true, "x");
    assert_eq!(header.get_field(34).value(), "6");
    let mut header = FieldMap::new();
    header.set_field(369, "5");
    dfx::session::session_logic::initialize_header(&mut header, &id, 3, 12, 7, true, "x");
    assert_eq!(header.get_field(34).value(), "3");
}

#[test]
fn logon_fields_and_formats() {
    let fields: Vec<(u32, String)> = generate_logon(30, true, "9", true).iter().map(|f| (f.tag(), f.value().clone())).collect();
    assert_eq!(
        fields,
        vec![(98, "0".to_string()), (108, "30".to_string()), (1137, "9".to_string()), (141, "Y".to_string())]
    );
    assert_eq!(generate_logon(5, false, "9", false).len(), 2);
    assert_eq!(sending_time_format("FIX.4.4", "%H"), "%H");
    assert_eq!(sending_time_format("FIXT.1.1", "%H"), "%H");
    assert_eq!(sending_time_format("FIX.4.1", "%H"), "%Y%m%d-%H:%M:%S");
    assert_eq!(creation_reset_reason(&SessionSchedule::NonStop, UtcTime { secs: 0, nanos: 0 }), "New session");
}
