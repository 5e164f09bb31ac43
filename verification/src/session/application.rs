//! The application that a session hands its messages to.
use vstd::prelude::*;

use crate::message::Message;
use crate::session::session_id::SessionId;

verus! {

/// Why the application refused a message or a logon.
#[derive(Debug, Clone)]
pub enum ApplicationError {
    DoNotAccept,
    LogonReject,
    DoNotSend,
}

/// What a session tells its application, and asks it about the messages it
/// sends and receives.
pub trait Application {
    fn on_create(&mut self, session_id: &SessionId) -> Result<(), ApplicationError>;

    fn on_logon(&mut self, session_id: &SessionId) -> Result<(), ApplicationError>;

    fn on_logout(&mut self, session_id: &SessionId) -> Result<(), ApplicationError>;

    /// Sees an admin message before it is sent, and may change it; the
    /// message handed back is well formed.
    fn to_admin(&mut self, message: Message, session_id: &SessionId) -> (r: Result<Message, ApplicationError>)
        ensures
            r matches Ok(m) ==> m.wf(),
    ;

    fn from_admin(&mut self, message: Message, session_id: &SessionId) -> Result<(), ApplicationError>;

    /// Sees an application message before it is sent, and may change it
    /// or refuse to have it sent; the message handed back is well formed.
    fn to_app(&mut self, message: Message, session_id: &SessionId) -> (r: Result<Message, ApplicationError>)
        ensures
            r matches Ok(m) ==> m.wf(),
    ;

    fn from_app(&mut self, message: Message, session_id: &SessionId) -> Result<(), ApplicationError>;
}

} // verus!
