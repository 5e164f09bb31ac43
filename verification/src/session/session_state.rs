//! What a session knows of its own progress: whether it is enabled and
//! initiates, what it sent and received of the logon and logout, its
//! heartbeat interval and timeouts, and the store and log it writes to.
use vstd::prelude::*;

use std::collections::BTreeMap;
use std::time::Instant;

use crate::log::Log;
use crate::message::Message;
use crate::message_store::MessageStore;
use crate::session::reset_range::ResetRange;

verus! {

/// The instants of `std::time::Instant`, declared so that a state can hold
/// them; nothing is known of what one holds.
#[verifier::external_type_specification]
#[verifier::external_body]
pub struct ExInstant(Instant);

/// What a session's state holds, but its store, its log, its queue of
/// messages received ahead of their turn and the instants it last received
/// and sent.
pub struct SessionStateModel {
    pub is_enabled: bool,
    pub is_initiator: bool,
    pub received_logon: bool,
    pub received_reset: bool,
    pub sent_logon: bool,
    pub sent_logout: bool,
    pub sent_reset: bool,
    pub logout_reason: Option<Seq<char>>,
    pub test_request_counter: u32,
    pub heartbeat_int: u32,
    pub heartbeat_int_ms: u64,
    pub logon_timeout: u32,
    pub logon_timeout_ms: u64,
    pub logout_timeout: u32,
    pub logout_timeout_ms: u64,
    pub resend_range: Option<ResetRange>,
}

/// `std::time::Instant::now()`: the present instant of the monotonic clock.
/// Nothing is known of it.
#[verifier::external_body]
fn instant_now() -> (r: Instant) {
    Instant::now()
}

/// The state a session starts in: enabled, with nothing sent or received,
/// no logout reason and no test request, the heartbeat interval given (and
/// in milliseconds), a logon timeout of 10 s, a logout timeout of 2 s
/// (10 000 ms), and no resend range.
pub open spec fn fresh_state(is_initiator: bool, heartbeat_int: u32) -> SessionStateModel {
    SessionStateModel {
        is_enabled: true,
        is_initiator,
        received_logon: false,
        received_reset: false,
        sent_logon: false,
        sent_logout: false,
        sent_reset: false,
        logout_reason: None,
        test_request_counter: 0,
        heartbeat_int,
        heartbeat_int_ms: (heartbeat_int * 1000) as u64,
        logon_timeout: 10,
        logon_timeout_ms: 10000,
        logout_timeout: 2,
        logout_timeout_ms: 10000,
        resend_range: None,
    }
}

/// The state of a session.
pub struct SessionState {
    is_enabled: bool,
    is_initiator: bool,
    received_logon: bool,
    received_reset: bool,
    sent_logon: bool,
    sent_logout: bool,
    sent_reset: bool,
    logout_reason: Option<String>,
    test_request_counter: u32,
    heartbeat_int: u32,
    heartbeat_int_ms: u64,
    last_received_time_dt: Option<Instant>,
    last_sent_time_dt: Option<Instant>,
    logon_timeout: u32,
    logon_timeout_ms: u64,
    logout_timeout: u32,
    logout_timeout_ms: u64,
    resend_range: Option<ResetRange>,
    message_queue: BTreeMap<u32, Message>,
    msg_store: Box<dyn MessageStore>,
    logger: Box<dyn Log>,
}

impl View for SessionState {
    type V = SessionStateModel;

    closed spec fn view(&self) -> SessionStateModel {
        SessionStateModel {
            is_enabled: self.is_enabled,
            is_initiator: self.is_initiator,
            received_logon: self.received_logon,
            received_reset: self.received_reset,
            sent_logon: self.sent_logon,
            sent_logout: self.sent_logout,
            sent_reset: self.sent_reset,
            logout_reason: match self.logout_reason {
                Some(s) => Some(s@),
                None => None,
            },
            test_request_counter: self.test_request_counter,
            heartbeat_int: self.heartbeat_int,
            heartbeat_int_ms: self.heartbeat_int_ms,
            logon_timeout: self.logon_timeout,
            logon_timeout_ms: self.logon_timeout_ms,
            logout_timeout: self.logout_timeout,
            logout_timeout_ms: self.logout_timeout_ms,
            resend_range: self.resend_range,
        }
    }
}

impl SessionState {
    /// The sequence number expected of the next message received, as the
    /// store keeps it.
    pub closed spec fn next_target(&self) -> u32 {
        self.msg_store.next_target()
    }

    /// The sequence number of the next message sent, as the store keeps it.
    pub closed spec fn next_sender(&self) -> u32 {
        self.msg_store.next_sender()
    }

    /// The messages sent, by sequence number, as the store keeps them.
    pub closed spec fn stored(&self) -> Map<u32, Seq<char>> {
        self.msg_store.messages()
    }

    pub fn next_target_msg_seq_num(&self) -> (r: u32)
        ensures
            r == self.next_target(),
    {
        self.msg_store.next_target_msg_seq_num()
    }

    pub fn next_sender_msg_seq_num(&self) -> (r: u32)
        ensures
            r == self.next_sender(),
    {
        self.msg_store.next_sender_msg_seq_num()
    }

    /// The next message received is expected one number further.
    pub fn incr_next_target_msg_seq_num(&mut self)
        requires
            old(self).next_target() < u32::MAX,
        ensures
            final(self)@ == old(self)@,
            final(self).next_target() == old(self).next_target() + 1,
            final(self).next_sender() == old(self).next_sender(),
            final(self).stored() == old(self).stored(),
            final(self).queued() == old(self).queued(),
    {
        self.msg_store.incr_next_target_msg_seq_num();
    }

    /// The next message received is expected with the number `seq_num`.
    pub fn set_next_target_msg_seq_num(&mut self, seq_num: u32)
        ensures
            final(self)@ == old(self)@,
            final(self).next_target() == seq_num,
            final(self).next_sender() == old(self).next_sender(),
            final(self).stored() == old(self).stored(),
            final(self).queued() == old(self).queued(),
    {
        self.msg_store.set_next_target_msg_seq_num(seq_num);
    }

    /// Keeps the text of the message sent as number `seq_num`.
    pub fn set(&mut self, seq_num: u32, message_string: &str)
        ensures
            final(self)@ == old(self)@,
            final(self).stored() == old(self).stored().insert(seq_num, message_string@),
            final(self).next_target() == old(self).next_target(),
            final(self).next_sender() == old(self).next_sender(),
            final(self).queued() == old(self).queued(),
    {
        self.msg_store.set(seq_num, message_string);
    }

    /// The next message sent takes the next number.
    pub fn incr_next_sender_msg_seq_num(&mut self)
        requires
            old(self).next_sender() < u32::MAX,
        ensures
            final(self)@ == old(self)@,
            final(self).next_sender() == old(self).next_sender() + 1,
            final(self).next_target() == old(self).next_target(),
            final(self).stored() == old(self).stored(),
            final(self).queued() == old(self).queued(),
    {
        self.msg_store.incr_next_sender_msg_seq_num();
    }

    /// Logs a message sent.
    pub fn log_outgoing(&self, outgoing: &str) {
        self.logger.on_outgoing(outgoing);
    }

    /// Keeps `message` as received ahead of its turn, numbered `seq_num`.
    pub fn queue(&mut self, seq_num: u32, message: Message)
        ensures
            final(self)@ == old(self)@,
            final(self).queued() == old(self).queued().insert(seq_num, message),
            final(self).next_target() == old(self).next_target(),
            final(self).next_sender() == old(self).next_sender(),
            final(self).stored() == old(self).stored(),
    {
        self.message_queue.insert(seq_num, message);
    }

    /// Resets the state for `reason`, which is logged: the store forgets its
    /// messages and both next sequence numbers become 1, and the queue is
    /// emptied.
    pub fn reset(&mut self, reason: &str)
        ensures
            final(self)@ == old(self)@,
            final(self).queued() == Map::<u32, Message>::empty(),
            final(self).next_target() == 1,
            final(self).next_sender() == 1,
            final(self).stored() == Map::<u32, Seq<char>>::empty(),
    {
        self.logger.on_event(reason);
        self.msg_store.reset();
        self.message_queue = BTreeMap::new();
    }

    /// Logs `event`.
    pub fn log_event(&self, event: &str) {
        self.logger.on_event(event);
    }

    /// Notes that a message was received now and no test request is out.
    pub fn received_now(&mut self)
        ensures
            final(self)@ == (SessionStateModel { test_request_counter: 0, ..old(self)@ }),
            final(self).queued() == old(self).queued(),
            final(self).next_target() == old(self).next_target(),
            final(self).next_sender() == old(self).next_sender(),
            final(self).stored() == old(self).stored(),
    {
        self.last_received_time_dt = Some(instant_now());
        self.test_request_counter = 0;
    }

    /// The resend request under way, if any.
    pub fn resend_range(&self) -> (r: Option<ResetRange>)
        ensures
            r == self@.resend_range,
    {
        self.resend_range
    }

    pub fn set_resend_range(&mut self, range: Option<ResetRange>)
        ensures
            final(self)@ == (SessionStateModel { resend_range: range, ..old(self)@ }),
            final(self).queued() == old(self).queued(),
            final(self).next_target() == old(self).next_target(),
            final(self).next_sender() == old(self).next_sender(),
            final(self).stored() == old(self).stored(),
    {
        self.resend_range = range;
    }

    pub fn set_received_logon(&mut self, received_logon: bool)
        ensures
            final(self)@ == (SessionStateModel { received_logon, ..old(self)@ }),
            final(self).queued() == old(self).queued(),
            final(self).next_target() == old(self).next_target(),
            final(self).next_sender() == old(self).next_sender(),
            final(self).stored() == old(self).stored(),
    {
        self.received_logon = received_logon;
    }

    pub fn set_sent_logout(&mut self, sent_logout: bool)
        ensures
            final(self)@ == (SessionStateModel { sent_logout, ..old(self)@ }),
            final(self).queued() == old(self).queued(),
            final(self).next_target() == old(self).next_target(),
            final(self).next_sender() == old(self).next_sender(),
            final(self).stored() == old(self).stored(),
    {
        self.sent_logout = sent_logout;
    }

    /// Whether a reset was received, and whether one was sent.
    pub fn set_resets(&mut self, received_reset: bool, sent_reset: bool)
        ensures
            final(self)@ == (SessionStateModel { received_reset, sent_reset, ..old(self)@ }),
            final(self).queued() == old(self).queued(),
            final(self).next_target() == old(self).next_target(),
            final(self).next_sender() == old(self).next_sender(),
            final(self).stored() == old(self).stored(),
    {
        self.received_reset = received_reset;
        self.sent_reset = sent_reset;
    }

    pub fn set_heartbeat_int(&mut self, heartbeat_int: u32)
        ensures
            final(self)@ == (SessionStateModel {
                heartbeat_int,
                heartbeat_int_ms: (heartbeat_int * 1000) as u64,
                ..old(self)@
            }),
            final(self).queued() == old(self).queued(),
            final(self).next_target() == old(self).next_target(),
            final(self).next_sender() == old(self).next_sender(),
            final(self).stored() == old(self).stored(),
    {
        self.heartbeat_int = heartbeat_int;
        self.heartbeat_int_ms = (heartbeat_int as u64) * 1000;
    }

    pub fn received_reset(&self) -> (r: bool)
        ensures
            r == self@.received_reset,
    {
        self.received_reset
    }

    pub fn sent_reset(&self) -> (r: bool)
        ensures
            r == self@.sent_reset,
    {
        self.sent_reset
    }

    /// The messages received ahead of their turn, by sequence number.
    pub closed spec fn queued(&self) -> Map<u32, Message> {
        self.message_queue@
    }

    /// Whether an instant of the last message received is known.
    pub closed spec fn received_at_known(&self) -> bool {
        self.last_received_time_dt is Some
    }

    /// Whether an instant of the last message sent is known.
    pub closed spec fn sent_at_known(&self) -> bool {
        self.last_sent_time_dt is Some
    }

    /// A new session state: enabled, with nothing sent or received, no
    /// logout reason and no test request, the heartbeat interval given (and
    /// in milliseconds), a logon timeout of 10 s, a logout timeout of 2 s
    /// (10 000 ms), no resend range and no message queued. It keeps the log
    /// and the store it is given; being trait objects, they are left out of
    /// its view, and the contract says nothing of them.
    pub fn new(is_initiator: bool, logger: Box<dyn Log>, heartbeat_int: u32, msg_store: Box<dyn MessageStore>) -> (r: Self)
        ensures
            r@ == fresh_state(is_initiator, heartbeat_int),
            r.queued() == Map::<u32, Message>::empty(),
            !r.received_at_known(),
            !r.sent_at_known(),
    {
        SessionState {
            is_enabled: true,
            is_initiator: is_initiator,
            received_logon: false,
            received_reset: false,
            sent_logon: false,
            sent_logout: false,
            sent_reset: false,
            logout_reason: None,
            test_request_counter: 0,
            heartbeat_int,
            heartbeat_int_ms: (heartbeat_int as u64) * 1000,
            last_received_time_dt: None,
            last_sent_time_dt: None,
            logon_timeout: 10,
            logon_timeout_ms: 10 * 1000,
            logout_timeout: 2,
            logout_timeout_ms: 10 * 1000,
            resend_range: None,
            message_queue: BTreeMap::new(),
            msg_store,
            logger,
        }
    }

    pub fn is_initiator(&self) -> (r: bool)
        ensures
            r == self@.is_initiator,
    {
        self.is_initiator
    }

    /// Whether the session initiates and has not sent its logon yet.
    pub fn should_send_logon(&self) -> (r: bool)
        ensures
            r == (self@.is_initiator && !self@.sent_logon),
    {
        self.is_initiator && !self.sent_logon
    }

    pub fn set_is_enabled(&mut self, is_enabled: bool)
        ensures
            final(self)@ == (SessionStateModel { is_enabled, ..old(self)@ }),
            final(self).queued() == old(self).queued(),
    {
        self.is_enabled = is_enabled;
    }

    pub fn is_enabled(&self) -> (r: bool)
        ensures
            r == self@.is_enabled,
    {
        self.is_enabled
    }

    pub fn sent_logon(&self) -> (r: bool)
        ensures
            r == self@.sent_logon,
    {
        self.sent_logon
    }

    pub fn set_sent_logon(&mut self, sent_logon: bool)
        ensures
            final(self)@ == (SessionStateModel { sent_logon, ..old(self)@ }),
            final(self).queued() == old(self).queued(),
    {
        self.sent_logon = sent_logon;
    }

    pub fn sent_logout(&self) -> (r: bool)
        ensures
            r == self@.sent_logout,
    {
        self.sent_logout
    }

    pub fn received_logon(&self) -> (r: bool)
        ensures
            r == self@.received_logon,
    {
        self.received_logon
    }

    /// A copy of the reason of the logout, where there is one.
    pub fn logout_reason(&self) -> (r: Option<String>)
        ensures
            match r {
                Some(s) => self@.logout_reason == Some(s@),
                None => self@.logout_reason is None,
            },
    {
        match &self.logout_reason {
            Some(s) => Some(s.clone()),
            None => None,
        }
    }

    pub fn heartbeat_int(&self) -> (r: u32)
        ensures
            r == self@.heartbeat_int,
    {
        self.heartbeat_int
    }

    pub fn test_request_counter(&self) -> (r: u32)
        ensures
            r == self@.test_request_counter,
    {
        self.test_request_counter
    }

    pub fn set_test_request_counter(&mut self, test_request_counter: u32)
        ensures
            final(self)@ == (SessionStateModel { test_request_counter, ..old(self)@ }),
            final(self).queued() == old(self).queued(),
    {
        self.test_request_counter = test_request_counter
    }
}

} // verus!
