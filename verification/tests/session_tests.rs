use std::cell::RefCell;
use std::rc::Rc;

use dfx::field_map::{Group, Tag};
use dfx::log::NoLogger;
use dfx::message::Message;
use dfx::message_factory::{MessageFactory, MessageFactoryError};
use dfx::message_store::MemoryMessageStore;
use dfx::session::session::{Session, SessionAction};
use dfx::session::session_schedule::{SessionSchedule, UtcTime};
use dfx::session::{Application, ApplicationError, HandleError, SessionId};

/// 2024-01-01 00:00:00 UTC.
const NOW_SECS: i64 = 1_704_067_200;

struct Recorder {
    calls: Rc<RefCell<Vec<String>>>,
    refuse_create: bool,
    refuse_app: bool,
}

impl Application for Recorder {
    fn on_create(&mut self, _session_id: &SessionId) -> Result<(), ApplicationError> {
        self.calls.borrow_mut().push("on_create".to_string());
        if self.refuse_create {
            Err(ApplicationError::DoNotAccept)
        } else {
            Ok(())
        }
    }

    fn on_logon(&mut self, _session_id: &SessionId) -> Result<(), ApplicationError> {
        self.calls.borrow_mut().push("on_logon".to_string());
        Ok(())
    }

    fn on_logout(&mut self, _session_id: &SessionId) -> Result<(), ApplicationError> {
        self.calls.borrow_mut().push("on_logout".to_string());
        Ok(())
    }

    fn to_admin(&mut self, message: Message, _session_id: &SessionId) -> Result<Message, ApplicationError> {
        self.calls.borrow_mut().push("to_admin".to_string());
        Ok(message)
    }

    fn from_admin(&mut self, _message: Message, _session_id: &SessionId) -> Result<(), ApplicationError> {
        self.calls.borrow_mut().push("from_admin".to_string());
        Ok(())
    }

    fn to_app(&mut self, message: Message, _session_id: &SessionId) -> Result<Message, ApplicationError> {
        self.calls.borrow_mut().push("to_app".to_string());
        if self.refuse_app {
            Err(ApplicationError::DoNotSend)
        } else {
            Ok(message)
        }
    }

    fn from_app(&mut self, _message: Message, _session_id: &SessionId) -> Result<(), ApplicationError> {
        self.calls.borrow_mut().push("from_app".to_string());
        if self.refuse_app {
            Err(ApplicationError::DoNotAccept)
        } else {
            Ok(())
        }
    }
}

struct NoFactory;

impl MessageFactory for NoFactory {
    fn get_supported_begin_strings(&self) -> Vec<String> {
        vec!["FIX.4.4".to_string()]
    }

    fn create(&self, begin_string: &str, _msg_type: &str) -> Result<Message, MessageFactoryError> {
        Err(MessageFactoryError::UnsupportedBeginString(begin_string.to_string()))
    }

    fn create_group(&self, _begin_string: &str, _msg_type: &str, group_counter_tag: Tag) -> Group {
        Group::new(group_counter_tag, 0)
    }
}

struct PlainFactory;

impl MessageFactory for PlainFactory {
    fn get_supported_begin_strings(&self) -> Vec<String> {
        vec!["FIX.4.4".to_string()]
    }

    fn create(&self, _begin_string: &str, _msg_type: &str) -> Result<Message, MessageFactoryError> {
        Ok(Message::default())
    }

    fn create_group(&self, _begin_string: &str, _msg_type: &str, group_counter_tag: Tag) -> Group {
        Group::new(group_counter_tag, 0)
    }
}

fn now() -> UtcTime {
    UtcTime { secs: NOW_SECS, nanos: 0 }
}

fn make_session(refuse_create: bool, refuse_app: bool) -> (Result<Session, HandleError>, Rc<RefCell<Vec<String>>>) {
    make_session_with(refuse_create, refuse_app, Box::new(PlainFactory))
}

fn make_session_with(
    refuse_create: bool,
    refuse_app: bool,
    factory: Box<dyn MessageFactory>,
) -> (Result<Session, HandleError>, Rc<RefCell<Vec<String>>>) {
    let calls = Rc::new(RefCell::new(Vec::new()));
    let app = Recorder { calls: calls.clone(), refuse_create, refuse_app };
    let id = SessionId::new("FIX.4.4", "S", "", "", "T", "", "");
    let s = Session::new(
        false,
        Box::new(app),
        Box::new(MemoryMessageStore::new()),
        Box::new(NoLogger),
        None,
        None,
        id,
        SessionSchedule::NonStop,
        30,
        factory,
        "",
        now(),
    );
    (s, calls)
}

fn incoming(msg_type: &str, sender: &str, target: &str, seq: &str) -> Message {
    let mut m = Message::default();
    m.header_mut().map_mut().set_field(8, "FIX.4.4");
    m.header_mut().map_mut().set_field(35, msg_type);
    m.header_mut().map_mut().set_field(49, sender);
    m.header_mut().map_mut().set_field(56, target);
    m.header_mut().map_mut().set_field(34, seq);
    m.header_mut().map_mut().set_field(52, "20240101-00:00:00.000");
    m
}

/// A framed message: BodyLength and CheckSum computed over `body`.
fn framed(begin: &str, body: &str) -> String {
    let head = format!("8={}\x019={}\x01", begin, body.len());
    let sum: u32 = head.bytes().chain(body.bytes()).map(|b| b as u32).sum::<u32>() % 256;
    format!("{}{}10={:03}\x01", head, body, sum)
}

#[test]
fn session_new_tells_the_application() {
    let (s, calls) = make_session(false, false);
    let s = match s {
        Ok(s) => s,
        Err(_) => panic!("the session was refused"),
    };
    assert_eq!(*calls.borrow(), vec!["on_create".to_string()]);
    assert_eq!(s.state().next_target_msg_seq_num(), 1);
    assert_eq!(s.state().next_sender_msg_seq_num(), 1);
    assert_eq!(s.session_id().id, "FIX.4.4:S->T");
    assert_eq!(s.reset_reason(), "New session");
    assert!(s.config().check_comp_id);
    assert_eq!(s.config().max_latency, 120);
}

#[test]
fn session_new_refused_by_the_application() {
    let (s, calls) = make_session(true, false);
    assert!(matches!(s, Err(HandleError::ApplicationError(ApplicationError::DoNotAccept))));
    assert_eq!(*calls.borrow(), vec!["on_create".to_string()]);
}

#[test]
fn verify_opt_comp_id_problem_makes_no_callback() {
    let (s, calls) = make_session(false, false);
    let mut s = s.ok().unwrap();
    let r = s.verify_opt(incoming("D", "X", "S", "1"), true, true, now());
    assert!(matches!(r, Ok(None)));
    assert_eq!(*calls.borrow(), vec!["on_create".to_string()]);
    let out = s.take_outbox();
    assert_eq!(out.len(), 2);
    assert!(matches!(out[0], SessionAction::Reject(_)));
    assert!(matches!(out[1], SessionAction::Logout { text: None }));
}

#[test]
fn verify_opt_delivers_an_application_message_once() {
    let (s, calls) = make_session(false, false);
    let mut s = s.ok().unwrap();
    let r = s.verify_opt(incoming("D", "T", "S", "1"), true, true, now());
    match r {
        Ok(Some(m)) => assert_eq!(m.header().map().get_field(35).value(), "D"),
        _ => panic!("the message was not delivered"),
    }
    assert_eq!(*calls.borrow(), vec!["on_create".to_string(), "from_app".to_string()]);
    assert_eq!(s.take_outbox().len(), 0);
}

#[test]
fn verify_opt_delivers_an_admin_message_to_from_admin() {
    let (s, calls) = make_session(false, false);
    let mut s = s.ok().unwrap();
    let r = s.verify_opt(incoming("0", "T", "S", "1"), true, true, now());
    assert!(matches!(r, Ok(Some(_))));
    assert_eq!(*calls.borrow(), vec!["on_create".to_string(), "from_admin".to_string()]);
}

#[test]
fn verify_opt_maps_an_application_error() {
    let (s, calls) = make_session(false, true);
    let mut s = s.ok().unwrap();
    let r = s.verify_opt(incoming("D", "T", "S", "1"), true, true, now());
    assert!(matches!(r, Err(HandleError::ApplicationError(ApplicationError::DoNotAccept))));
    assert_eq!(*calls.borrow(), vec!["on_create".to_string(), "from_app".to_string()]);
}

#[test]
fn verify_opt_queues_a_message_numbered_too_high() {
    let (s, calls) = make_session(false, false);
    let mut s = s.ok().unwrap();
    let r = s.verify_opt(incoming("D", "T", "S", "5"), true, true, now());
    assert!(matches!(r, Ok(None)));
    assert_eq!(*calls.borrow(), vec!["on_create".to_string()]);
    assert_eq!(s.state().next_target_msg_seq_num(), 1);
    let out = s.take_outbox();
    assert!(out.iter().any(|a| matches!(a, SessionAction::ResendRequest { begin: 1, .. })));
}

#[test]
fn verify_opt_missing_sender_comp_id() {
    let (s, _calls) = make_session(false, false);
    let mut s = s.ok().unwrap();
    let mut m = Message::default();
    m.header_mut().map_mut().set_field(35, "D");
    m.header_mut().map_mut().set_field(56, "S");
    let r = s.verify_opt(m, true, true, now());
    assert!(matches!(r, Err(HandleError::FieldMapError(dfx::field_map::FieldMapError::FieldNotFound(49)))));
}

#[test]
fn verify_opt_sending_time_too_far_away() {
    let (s, calls) = make_session(false, false);
    let mut s = s.ok().unwrap();
    let later = UtcTime { secs: NOW_SECS + 1000, nanos: 0 };
    let r = s.verify_opt(incoming("D", "T", "S", "1"), true, true, later);
    assert!(matches!(r, Ok(None)));
    assert_eq!(*calls.borrow(), vec!["on_create".to_string()]);
    let out = s.take_outbox();
    assert_eq!(out.len(), 2);
    assert!(matches!(out[1], SessionAction::Logout { text: None }));
}

#[test]
fn next_msg_before_logon_disconnects() {
    let (s, _calls) = make_session(false, false);
    let mut s = s.ok().unwrap();
    let text = framed("FIX.4.4", "35=0\x0134=1\x0149=T\x0152=20240101-00:00:00.000\x0156=S\x01");
    let r = s.next_msg(&text, now());
    assert!(r.is_ok());
    let out = s.take_outbox();
    assert_eq!(out.len(), 1);
    match &out[0] {
        SessionAction::Disconnect { reason } => assert_eq!(reason, "Received msg type '0' when not logged on"),
        _ => panic!("expected a disconnection"),
    }
    assert_eq!(s.state().next_target_msg_seq_num(), 1);
}

#[test]
fn next_msg_refuses_another_version() {
    let (s, _calls) = make_session(false, false);
    let mut s = s.ok().unwrap();
    let text = framed("FIX.4.2", "35=0\x0134=1\x0149=T\x0152=20240101-00:00:00.000\x0156=S\x01");
    let r = s.next_msg(&text, now());
    match r {
        Err(HandleError::UnsupportedVersion { expected, actual }) => {
            assert_eq!(expected, "FIX.4.4");
            assert_eq!(actual, "FIX.4.2");
        },
        _ => panic!("expected an unsupported version"),
    }
}

#[test]
fn next_msg_bad_checksum_is_a_parse_error() {
    let (s, _calls) = make_session(false, false);
    let mut s = s.ok().unwrap();
    let text = "8=FIX.4.4\x019=5\x0135=0\x0110=000\x01";
    let r = s.next_msg(text, now());
    assert!(matches!(r, Err(HandleError::MessageParseError(_))));
    assert_eq!(s.take_outbox().len(), 0);
}

fn logged_on_session() -> (Session, Rc<RefCell<Vec<String>>>) {
    let (s, calls) = make_session(false, false);
    let mut s = s.ok().unwrap();
    let logon = framed("FIX.4.4", "35=A\x0134=1\x0149=T\x0152=20240101-00:00:00.000\x0156=S\x0198=0\x01108=30\x01");
    let r = s.next_msg(&logon, now());
    assert!(r.is_ok());
    (s, calls)
}

#[test]
fn next_msg_logon_is_answered_and_logs_on() {
    let (mut s, calls) = logged_on_session();
    assert!(s.state().received_logon());
    assert!(s.state().sent_logon());
    assert_eq!(s.state().next_target_msg_seq_num(), 2);
    assert_eq!(s.state().heartbeat_int(), 30);
    assert_eq!(
        *calls.borrow(),
        vec!["on_create".to_string(), "from_admin".to_string(), "on_logon".to_string()]
    );
    let out = s.take_outbox();
    assert_eq!(out.len(), 1);
    assert!(matches!(out[0], SessionAction::LogonResponse));
}

#[test]
fn next_msg_heartbeat_and_test_request_after_logon() {
    let (mut s, calls) = logged_on_session();
    s.take_outbox();
    let hb = framed("FIX.4.4", "35=0\x0134=2\x0149=T\x0152=20240101-00:00:00.000\x0156=S\x01");
    assert!(s.next_msg(&hb, now()).is_ok());
    assert_eq!(s.state().next_target_msg_seq_num(), 3);
    let tr = framed("FIX.4.4", "35=1\x0134=3\x0149=T\x0152=20240101-00:00:00.000\x0156=S\x01112=ping\x01");
    assert!(s.next_msg(&tr, now()).is_ok());
    assert_eq!(s.state().next_target_msg_seq_num(), 4);
    let out = s.take_outbox();
    assert_eq!(out.len(), 1);
    match &out[0] {
        SessionAction::Heartbeat { test_req_id } => assert_eq!(test_req_id.as_deref(), Some("ping")),
        _ => panic!("expected a heartbeat"),
    }
    assert_eq!(calls.borrow().len(), 5);
}

#[test]
fn next_msg_application_message_and_gap_after_logon() {
    let (mut s, calls) = logged_on_session();
    s.take_outbox();
    let order = framed("FIX.4.4", "35=D\x0134=2\x0149=T\x0152=20240101-00:00:00.000\x0156=S\x0111=abc\x01");
    assert!(s.next_msg(&order, now()).is_ok());
    assert_eq!(s.state().next_target_msg_seq_num(), 3);
    assert_eq!(calls.borrow().last().unwrap(), "from_app");
    let ahead = framed("FIX.4.4", "35=D\x0134=7\x0149=T\x0152=20240101-00:00:00.000\x0156=S\x0111=abd\x01");
    assert!(s.next_msg(&ahead, now()).is_ok());
    assert_eq!(s.state().next_target_msg_seq_num(), 3);
    let out = s.take_outbox();
    assert!(out.iter().any(|a| matches!(a, SessionAction::ResendRequest { begin: 3, .. })));
    let resend = framed("FIX.4.4", "35=2\x0134=3\x0149=T\x0152=20240101-00:00:00.000\x0156=S\x017=1\x0116=0\x01");
    assert!(matches!(s.next_msg(&resend, now()), Err(HandleError::String(_))));
}

fn outgoing(msg_type: &str) -> Message {
    let mut m = Message::default();
    m.header_mut().map_mut().set_field(35, msg_type);
    m.body_mut().set_field(112, "hello");
    m
}

#[test]
fn send_raw_fills_the_header_and_moves_the_sequence_number_on() {
    let (s, calls) = make_session(false, false);
    let mut s = s.ok().unwrap();
    let r = s.send_raw(outgoing("0"), "20240101-00:00:00.000");
    let text = match r {
        Ok(Some(t)) => t,
        _ => panic!("nothing was sent"),
    };
    assert!(text.starts_with("8=FIX.4.4\x01"));
    for part in ["35=0\x01", "34=1\x01", "49=S\x01", "56=T\x01", "52=20240101-00:00:00.000\x01", "112=hello\x01"] {
        assert!(text.contains(part), "{} lacks {}", text, part);
    }
    assert_eq!(s.state().next_sender_msg_seq_num(), 2);
    assert_eq!(calls.borrow().last().unwrap(), "to_admin");
    let second = s.send_raw(outgoing("D"), "20240101-00:00:01.000").ok().unwrap().unwrap();
    assert!(second.contains("34=2\x01"));
    assert_eq!(s.state().next_sender_msg_seq_num(), 3);
    assert_eq!(calls.borrow().last().unwrap(), "to_app");
}

#[test]
fn send_raw_refused_by_to_app_sends_nothing() {
    let (s, calls) = make_session(false, true);
    let mut s = s.ok().unwrap();
    let r = s.send_raw(outgoing("D"), "20240101-00:00:00.000");
    assert!(matches!(r, Ok(None)));
    assert_eq!(s.state().next_sender_msg_seq_num(), 1);
    assert_eq!(calls.borrow().last().unwrap(), "to_app");
}

#[test]
fn send_raw_without_msg_type() {
    let (s, _calls) = make_session(false, false);
    let mut s = s.ok().unwrap();
    let r = s.send_raw(Message::default(), "20240101-00:00:00.000");
    assert!(matches!(r, Err(HandleError::FieldMapError(dfx::field_map::FieldMapError::FieldNotFound(35)))));
    assert_eq!(s.state().next_sender_msg_seq_num(), 1);
}

fn sent(s: &mut Session, action: SessionAction) -> String {
    match s.send_action(action, "20240101-00:00:00.000") {
        Ok(Some(t)) => t,
        _ => panic!("nothing was sent"),
    }
}

#[test]
fn send_action_heartbeat_answers_the_test_request() {
    let (s, calls) = make_session(false, false);
    let mut s = s.ok().unwrap();
    let text = sent(&mut s, SessionAction::Heartbeat { test_req_id: Some("ping".to_string()) });
    for part in ["35=0\x01", "34=1\x01", "112=ping\x01"] {
        assert!(text.contains(part), "{} lacks {}", text, part);
    }
    assert_eq!(calls.borrow().last().unwrap(), "to_admin");
    assert_eq!(s.state().next_sender_msg_seq_num(), 2);
}

#[test]
fn send_action_resend_request_and_logout() {
    let (s, _calls) = make_session(false, false);
    let mut s = s.ok().unwrap();
    let text = sent(&mut s, SessionAction::ResendRequest { begin: 3, end: 0 });
    for part in ["35=2\x01", "7=3\x01", "16=0\x01"] {
        assert!(text.contains(part), "{} lacks {}", text, part);
    }
    assert!(!s.state().sent_logout());
    let text = sent(&mut s, SessionAction::Logout { text: Some("bye".to_string()) });
    assert!(text.contains("35=5\x01") && text.contains("58=bye\x01") && text.contains("34=2\x01"));
    assert!(s.state().sent_logout());
}

#[test]
fn send_action_answers_a_logon() {
    let (s, _calls) = make_session(false, false);
    let mut s = s.ok().unwrap();
    let text = sent(&mut s, SessionAction::LogonResponse);
    for part in ["35=A\x01", "98=0\x01", "108=30\x01"] {
        assert!(text.contains(part), "{} lacks {}", text, part);
    }
}

#[test]
fn send_action_disconnect_sends_nothing() {
    let (s, _calls) = make_session(false, false);
    let mut s = s.ok().unwrap();
    let r = s.send_action(SessionAction::Disconnect { reason: "done".to_string() }, "20240101-00:00:00.000");
    assert!(matches!(r, Ok(None)));
    assert_eq!(s.state().next_sender_msg_seq_num(), 1);
}

#[test]
fn send_action_without_a_factory_message() {
    let (s, _calls) = make_session_with(false, false, Box::new(NoFactory));
    let mut s = s.ok().unwrap();
    let r = s.send_action(SessionAction::Heartbeat { test_req_id: None }, "20240101-00:00:00.000");
    assert!(matches!(r, Err(HandleError::MessageFactoryError(_))));
    assert_eq!(s.state().next_sender_msg_seq_num(), 1);
}
