//! What a session sends its messages through.
use vstd::prelude::*;

verus! {

/// Sends a session's messages to the counterparty and closes the
/// connection.
pub trait Responder: Send {
    fn send(&mut self, message: String) -> bool;

    fn disconnect(&mut self);
}

/// What a session asks of the connection.
#[derive(Debug, Clone, PartialEq, Eq)]
pub enum ResponderEvent {
    Send(String),
    Disconnect,
}

/// What the connection answers.
#[derive(Debug, Clone, Copy, PartialEq, Eq, Structural)]
pub enum ResponderResponse {
    Sent(bool),
}

} // verus!
