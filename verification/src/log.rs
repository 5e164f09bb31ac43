//! What a session writes down of the messages it receives and sends and of
//! what happens to it.
use vstd::prelude::*;

verus! {

/// Where a session writes down its messages and events.
pub trait Log: Send {
    fn on_incoming(&self, incoming: &str);

    fn on_outgoing(&self, outgoing: &str);

    fn on_event(&self, event: &str);
}

/// A log that writes nothing.
#[derive(Debug, Clone, Copy)]
pub struct NoLogger;

impl Log for NoLogger {
    fn on_incoming(&self, _incoming: &str) {
    }

    fn on_outgoing(&self, _outgoing: &str) {
    }

    fn on_event(&self, _event: &str) {
    }
}

/// `s` with each SOH shown as `|`.
pub open spec fn shown(s: Seq<char>) -> Seq<char> {
    s.map_values(|c: char| if c == '\x01' { '|' } else { c })
}

/// `s` with each SOH shown as `|`.
pub fn show_soh(s: &str) -> (r: String)
    ensures
        r@ == shown(s@),
{
    let cs = crate::text::str_chars(s);
    let mut out: Vec<char> = Vec::new();
    let mut i: usize = 0;
    while i < cs.len()
        invariant
            i <= cs@.len(),
            out@ == shown(cs@.subrange(0, i as int)),
        decreases cs@.len() - i,
    {
        let c = cs[i];
        out.push(if c == '\x01' { '|' } else { c });
        i = i + 1;
        assert(out@ =~= shown(cs@.subrange(0, i as int)));
    }
    assert(cs@.subrange(0, i as int) =~= cs@);
    crate::text::string_from_chars(out.as_slice())
}

/// A log that writes a line per message or event on the standard output;
/// the lines are made here, and written where the output is at hand.
#[derive(Debug, Clone, Copy)]
pub struct PrintLnLogger;

impl PrintLnLogger {
    /// The line of an incoming message: `Incoming: ` and the message, each
    /// SOH shown as `|`.
    pub fn incoming_line(&self, incoming: &str) -> (r: String)
        ensures
            r@ == "Incoming: "@ + shown(incoming@),
    {
        crate::text::concat_strs("Incoming: ", show_soh(incoming).as_str())
    }

    /// The line of an outgoing message: `Outgoing: ` and the message, each
    /// SOH shown as `|`.
    pub fn outgoing_line(&self, outgoing: &str) -> (r: String)
        ensures
            r@ == "Outgoing: "@ + shown(outgoing@),
    {
        crate::text::concat_strs("Outgoing: ", show_soh(outgoing).as_str())
    }

    /// The line of an event: `Event: ` and the event.
    pub fn event_line(&self, event: &str) -> (r: String)
        ensures
            r@ == "Event: "@ + event@,
    {
        crate::text::concat_strs("Event: ", event)
    }
}

} // verus!
