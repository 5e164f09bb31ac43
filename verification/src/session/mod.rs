//! Sessions: their identity, the application that receives their messages,
//! their settings and schedule, and the decisions they take.
pub mod application;
pub mod reset_range;
pub mod responder;
#[allow(clippy::module_inception)]
pub mod session;
pub mod session_flow;
pub mod session_id;
pub mod session_logic;
pub mod session_schedule;
pub mod session_settings;
pub mod session_state;
pub mod settings;

pub use application::{Application, ApplicationError};
pub use reset_range::ResetRange;
pub use responder::{Responder, ResponderEvent, ResponderResponse};
pub use session::{Event, HandleError, SessionError};
pub use session_id::SessionId;
