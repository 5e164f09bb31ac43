use dfx::message::Message;
use dfx::session::{Application, ApplicationError, SessionId};

struct TestApplication;

impl Application for TestApplication {
    fn on_create(&mut self, _session_id: &SessionId) -> Result<(), ApplicationError> {
        Err(ApplicationError::DoNotAccept)
    }

    fn on_logon(&mut self, _session_id: &SessionId) -> Result<(), ApplicationError> {
        Err(ApplicationError::LogonReject)
    }

    fn on_logout(&mut self, _session_id: &SessionId) -> Result<(), ApplicationError> {
        Err(ApplicationError::DoNotAccept)
    }

    fn to_admin(&mut self, message: Message, _session_id: &SessionId) -> Result<Message, ApplicationError> {
        Ok(message)
    }

    fn from_admin(&mut self, _message: Message, _session_id: &SessionId) -> Result<(), ApplicationError> {
        Err(ApplicationError::DoNotAccept)
    }

    fn to_app(&mut self, _message: Message, _session_id: &SessionId) -> Result<Message, ApplicationError> {
        Err(ApplicationError::DoNotSend)
    }

    fn from_app(&mut self, _message: Message, _session_id: &SessionId) -> Result<(), ApplicationError> {
        Err(ApplicationError::DoNotAccept)
    }
}

#[test]
fn test_inject() {
    let session_id = SessionId::new("".into(), "".into(), "".into(), "".into(), "".into(), "".into(), "".into());
    let mut app = TestApplication {};
    let msg = Message::default();
    let res = app.to_admin(msg, &session_id);
    assert!(res.is_ok());
    let _res = res.unwrap();
    let msg = Message::default();
    let res = app.to_admin(msg, &session_id);
    assert!(res.is_ok());
    let _res = res.unwrap();
}

#[test]
fn session_id_text_and_fixt() {
    let id = SessionId::new("FIXT.1.1", "S", "ss", "sl", "T", "ts", "tl");
    assert_eq!(id.id, "FIXT.1.1:Ssssl->Ttstl");
    assert!(id.is_fixt);
    let id = SessionId::new("FIX.4.4", "S", "", "", "T", "", "");
    assert_eq!(id.id, "FIX.4.4:S->T");
    assert!(!id.is_fixt);
}
