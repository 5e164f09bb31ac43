use dfx::log::NoLogger;
use dfx::message_store::MemoryMessageStore;
use dfx::session::session_state::SessionState;

#[test]
fn new_state_is_enabled_and_has_sent_nothing() {
    let state = SessionState::new(true, Box::new(NoLogger), 30, Box::new(MemoryMessageStore::new()));
    assert!(state.is_enabled());
    assert!(state.is_initiator());
    assert!(state.should_send_logon());
    assert!(!state.sent_logon());
    assert!(!state.sent_logout());
    assert!(!state.received_logon());
    assert_eq!(state.logout_reason(), None);
    assert_eq!(state.heartbeat_int(), 30);
    assert_eq!(state.test_request_counter(), 0);
}

#[test]
fn state_setters_change_one_thing() {
    let mut state = SessionState::new(false, Box::new(NoLogger), 10, Box::new(MemoryMessageStore::new()));
    assert!(!state.should_send_logon());
    state.set_sent_logon(true);
    assert!(state.sent_logon());
    state.set_is_enabled(false);
    assert!(!state.is_enabled());
    state.set_test_request_counter(3);
    assert_eq!(state.test_request_counter(), 3);
    assert_eq!(state.heartbeat_int(), 10);
}
