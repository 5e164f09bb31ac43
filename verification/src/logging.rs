//! Logs that name the session they write for.
use vstd::prelude::*;

use crate::log::{show_soh, shown};
use crate::session::session_id::SessionId;
use crate::text::concat_strs;

verus! {

/// Where a session writes down its messages and events.
pub trait Logger: Send {
    fn on_incoming(&self, incoming: &str);

    fn on_outgoing(&self, outgoing: &str);

    fn on_event(&self, event: &str);
}

/// A log that writes nothing.
#[derive(Debug, Clone, Copy)]
pub struct NoLogger;

impl Logger for NoLogger {
    fn on_incoming(&self, _incoming: &str) {
    }

    fn on_outgoing(&self, _outgoing: &str) {
    }

    fn on_event(&self, _event: &str) {
    }
}

/// A log that writes a line per message or event on the standard output,
/// each beginning with the session's identity; the lines are made here,
/// and written where the output is at hand.
#[derive(Debug, Clone)]
pub struct PrintLnLogger {
    session_id: SessionId,
}

impl PrintLnLogger {
    /// A log for the session `session_id`.
    pub fn new(session_id: &SessionId) -> (r: PrintLnLogger)
        ensures
            r.id()@ == session_id.id@,
    {
        PrintLnLogger {
            session_id: SessionId {
                id: session_id.id.clone(),
                begin_string: session_id.begin_string.clone(),
                sender_comp_id: session_id.sender_comp_id.clone(),
                sender_sub_id: session_id.sender_sub_id.clone(),
                sender_location_id: session_id.sender_location_id.clone(),
                target_comp_id: session_id.target_comp_id.clone(),
                target_sub_id: session_id.target_sub_id.clone(),
                target_location_id: session_id.target_location_id.clone(),
                is_fixt: session_id.is_fixt,
            },
        }
    }

    pub closed spec fn id(self) -> String {
        self.session_id.id
    }

    /// `id [INCOMING] message`, each SOH of the message shown as `|`.
    pub fn incoming_line(&self, incoming: &str) -> (r: String)
        ensures
            r@ == self.id()@ + " [INCOMING] "@ + shown(incoming@),
    {
        let a = concat_strs(self.session_id.id.as_str(), " [INCOMING] ");
        concat_strs(a.as_str(), show_soh(incoming).as_str())
    }

    /// `id [OUTGOING] message`, each SOH of the message shown as `|`.
    pub fn outgoing_line(&self, outgoing: &str) -> (r: String)
        ensures
            r@ == self.id()@ + " [OUTGOING] "@ + shown(outgoing@),
    {
        let a = concat_strs(self.session_id.id.as_str(), " [OUTGOING] ");
        concat_strs(a.as_str(), show_soh(outgoing).as_str())
    }

    /// `id [EVENT   ] event`.
    pub fn event_line(&self, event: &str) -> (r: String)
        ensures
            r@ == self.id()@ + " [EVENT   ] "@ + event@,
    {
        let a = concat_strs(self.session_id.id.as_str(), " [EVENT   ] ");
        concat_strs(a.as_str(), event)
    }
}

} // verus!
