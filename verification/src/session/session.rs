//! What happens to a session, and why it fails.
use vstd::prelude::*;

use crate::data_dictionary::{DataDictionary, MessageValidationError};
use crate::field_map::{lookup, FieldBase, FieldMapError, Tag};
use crate::fields::SessionRejectReason;
use crate::log::Log;
use crate::message::{
    dd_view, dd_wf, int_field, message_text, read_message, Message, MessageModel,
    MessageParseError, ParseErrorModel,
};
use crate::field_map::FieldMap;
use crate::session::session_flow::{logout_reply, not_logged_on_reason, route, route_message, MessageRoute};
use crate::message_factory::{MessageFactory, MessageFactoryError};
use crate::message_store::MessageStore;
use crate::session::application::{Application, ApplicationError};
use crate::session::reset_range::ResetRange;
use crate::session::session_flow::{default_config, session_setup, SessionDefaults};
use crate::session::session_id::SessionId;
use crate::session::session_logic::{
    admin_msg_type, fields_view, generate_logon, generate_reject, initialize_header, initialized_value, logon_fields, generate_resend_request, is_correct_comp_id,
    is_good_time, good_time, needs_resend_request, reject_fields, resend_progress, resend_progress_of,
    resend_range, too_low_error, RejectPlan, ResendProgress,
};
use crate::session::session_schedule::{session_time, utc_time_ok, SessionSchedule, UtcTime};
use crate::session::session_state::{fresh_state, SessionState, SessionStateModel};
use crate::tags;
use crate::text::{decimal, decimal_string, str_eq};

verus! {

/// What a session reacts to.
#[derive(Debug, Clone)]
pub enum Event {
    /// A FIX message received.
    Message(Vec<u8>),
    /// The connection failed.
    IoError,
    /// Time to send a heartbeat.
    Heartbeat,
    /// The counterparty missed its heartbeat: time to send a test request.
    TestRequest,
    /// The counterparty stopped answering: time to log out.
    Logout,
}

/// Why a message could not be handed to a session.
#[derive(Debug, Clone)]
pub enum SessionError {
    NotConnected(SessionId),
    NotLoggedOn(SessionId),
    SessionNotFound,
    AlreadyConnected,
}

/// Why a session could not handle a message.
#[derive(Debug, Clone)]
pub enum HandleError {
    UnsupportedVersion { expected: String, actual: String },
    MessageFactoryError(MessageFactoryError),
    MessageParseError(MessageParseError),
    MessageValidationError(MessageValidationError),
    String(String),
    ApplicationError(ApplicationError),
    FieldMapError(FieldMapError),
}

impl From<MessageFactoryError> for HandleError {
    fn from(e: MessageFactoryError) -> (r: Self) {
        HandleError::MessageFactoryError(e)
    }
}

impl vstd::std_specs::convert::FromSpecImpl<MessageFactoryError> for HandleError {
    open spec fn obeys_from_spec() -> bool {
        true
    }

    open spec fn from_spec(v: MessageFactoryError) -> Self {
        HandleError::MessageFactoryError(v)
    }
}

impl From<MessageParseError> for HandleError {
    fn from(e: MessageParseError) -> (r: Self) {
        HandleError::MessageParseError(e)
    }
}

impl vstd::std_specs::convert::FromSpecImpl<MessageParseError> for HandleError {
    open spec fn obeys_from_spec() -> bool {
        true
    }

    open spec fn from_spec(v: MessageParseError) -> Self {
        HandleError::MessageParseError(v)
    }
}

impl From<MessageValidationError> for HandleError {
    fn from(e: MessageValidationError) -> (r: Self) {
        HandleError::MessageValidationError(e)
    }
}

impl vstd::std_specs::convert::FromSpecImpl<MessageValidationError> for HandleError {
    open spec fn obeys_from_spec() -> bool {
        true
    }

    open spec fn from_spec(v: MessageValidationError) -> Self {
        HandleError::MessageValidationError(v)
    }
}

impl From<String> for HandleError {
    fn from(e: String) -> (r: Self) {
        HandleError::String(e)
    }
}

impl vstd::std_specs::convert::FromSpecImpl<String> for HandleError {
    open spec fn obeys_from_spec() -> bool {
        true
    }

    open spec fn from_spec(v: String) -> Self {
        HandleError::String(v)
    }
}

impl From<ApplicationError> for HandleError {
    fn from(e: ApplicationError) -> (r: Self) {
        HandleError::ApplicationError(e)
    }
}

impl vstd::std_specs::convert::FromSpecImpl<ApplicationError> for HandleError {
    open spec fn obeys_from_spec() -> bool {
        true
    }

    open spec fn from_spec(v: ApplicationError) -> Self {
        HandleError::ApplicationError(v)
    }
}

impl From<FieldMapError> for HandleError {
    fn from(e: FieldMapError) -> (r: Self) {
        HandleError::FieldMapError(e)
    }
}

impl vstd::std_specs::convert::FromSpecImpl<FieldMapError> for HandleError {
    open spec fn obeys_from_spec() -> bool {
        true
    }

    open spec fn from_spec(v: FieldMapError) -> Self {
        HandleError::FieldMapError(v)
    }
}

/// A call that a session made of its application; a message handed over
/// comes with the error that the application answered, if any.
pub enum AppCall {
    OnCreate,
    OnLogon,
    FromAdmin(MessageModel, Option<ApplicationError>),
    FromApp(MessageModel, Option<ApplicationError>),
    ToAdmin(MessageModel, Option<ApplicationError>),
    ToApp(MessageModel, Option<ApplicationError>),
}

/// The message handed over in a call, where there is one.
pub open spec fn call_message(c: AppCall) -> MessageModel {
    match c {
        AppCall::FromAdmin(m, _) => m,
        AppCall::FromApp(m, _) => m,
        AppCall::ToAdmin(m, _) => m,
        AppCall::ToApp(m, _) => m,
        _ => empty_message(),
    }
}

/// What the application answered to a call.
pub open spec fn call_outcome(c: AppCall) -> Option<ApplicationError> {
    match c {
        AppCall::FromAdmin(_, out) => out,
        AppCall::FromApp(_, out) => out,
        AppCall::ToAdmin(_, out) => out,
        AppCall::ToApp(_, out) => out,
        _ => None,
    }
}

/// The calls `after` are the calls `before` and one more: `m` handed to
/// `from_admin` (where `admin`) or `from_app`; where the application
/// accepted it, `r` gives it back, and where it answered an error, `r` is
/// that error.
pub open spec fn handed_over(
    before: Seq<AppCall>,
    after: Seq<AppCall>,
    m: MessageModel,
    admin: bool,
    r: Result<Option<Message>, HandleError>,
) -> bool {
    let out = call_outcome(after.last());
    &&& after.len() == before.len() + 1
    &&& after.drop_last() == before
    &&& after.last() == if admin {
        AppCall::FromAdmin(m, out)
    } else {
        AppCall::FromApp(m, out)
    }
    &&& match out {
        None => r matches Ok(Some(x)) && x@ == m && x.wf(),
        Some(e) => r == Err::<Option<Message>, HandleError>(HandleError::ApplicationError(e)),
    }
}

/// The value of the field `t` once the fields `fs` are set in order on a
/// map where it was `base`: the last value given to `t`, if any.
pub open spec fn after_puts(base: Option<Seq<char>>, fs: Seq<(u32, Seq<char>)>, t: u32) -> Option<Seq<char>>
    decreases fs.len(),
{
    if fs.len() == 0 {
        base
    } else if fs.last().0 == t {
        Some(fs.last().1)
    } else {
        after_puts(base, fs.drop_last(), t)
    }
}

/// A field that `fs` sets ends with the same value whatever it was before.
pub proof fn lemma_after_puts_set(b1: Option<Seq<char>>, b2: Option<Seq<char>>, fs: Seq<(u32, Seq<char>)>, i: int)
    requires
        0 <= i < fs.len(),
    ensures
        after_puts(b1, fs, fs[i].0) == after_puts(b2, fs, fs[i].0),
    decreases fs.len(),
{
    if fs.last().0 != fs[i].0 {
        lemma_after_puts_set(b1, b2, fs.drop_last(), i);
    }
}

/// The message that carries an action, where one does: its MsgType and the
/// fields set in its body, in order. A logon answers with no encryption,
/// the heartbeat interval `heartbeat_int` and, for FIXT, the default
/// application version `appl_ver`; a logout carries its text where it is
/// not empty; a reject goes where its plan sends it.
pub open spec fn action_message(a: ActionModel, heartbeat_int: u32, is_fixt: bool, appl_ver: Seq<char>) -> Option<
    (Seq<char>, Seq<(u32, Seq<char>)>),
> {
    match a {
        ActionModel::Reject(fs, send) => if send {
            Some(("3"@, fs))
        } else {
            None
        },
        ActionModel::Logout(t) => Some(
            (
                "5"@,
                match t {
                    Some(v) => if v.len() > 0 {
                        seq![(tags::Text, v)]
                    } else {
                        Seq::empty()
                    },
                    None => Seq::empty(),
                },
            ),
        ),
        ActionModel::ResendRequest(b, e) => Some(
            ("2"@, seq![(tags::BeginSeqNo, decimal(b as nat)), (tags::EndSeqNo, decimal(e as nat))]),
        ),
        ActionModel::Heartbeat(id) => Some(
            (
                "0"@,
                match id {
                    Some(v) => seq![(tags::TestReqID, v)],
                    None => Seq::empty(),
                },
            ),
        ),
        ActionModel::LogonResponse => Some(("A"@, logon_fields(heartbeat_int, is_fixt, appl_ver, false))),
        ActionModel::Disconnect(_) => None,
    }
}

/// Sets the fields `fields` on `map`, in order.
fn put_fields(map: &mut FieldMap, fields: &Vec<(Tag, String)>)
    requires
        old(map).wf(),
    ensures
        final(map).wf(),
        final(map)@.groups == old(map)@.groups,
        forall|t: u32|
            #[trigger] final(map).field_value(t) == after_puts(old(map).field_value(t), fields_view(fields@), t),
{
    let ghost m0 = *map;
    let mut i: usize = 0;
    while i < fields.len()
        invariant
            0 <= i <= fields.len(),
            map.wf(),
            map@.groups == m0@.groups,
            forall|t: u32|
                #[trigger] map.field_value(t) == after_puts(m0.field_value(t), fields_view(fields@).take(i as int), t),
        decreases fields.len() - i,
    {
        map.set_field(fields[i].0, fields[i].1.as_str());
        proof {
            let sq = fields_view(fields@).take(i + 1);
            assert(sq.drop_last() =~= fields_view(fields@).take(i as int));
            assert(sq.last() == (fields@[i as int].0, fields@[i as int].1@));
            assert forall|t: u32| #[trigger]
                map.field_value(t) == after_puts(m0.field_value(t), sq, t) by {}
        }
        i = i + 1;
    }
    assert(fields_view(fields@).take(fields.len() as int) =~= fields_view(fields@));
}

/// What a session asks its host to send or do, in order.
pub enum SessionAction {
    /// Send this reject (where the plan says it is sent).
    Reject(RejectPlan),
    /// Send a logout, with this text where there is one.
    Logout { text: Option<String> },
    /// Send a resend request for these sequence numbers.
    ResendRequest { begin: u32, end: u32 },
    /// Send a heartbeat, answering the test request with this id where
    /// there is one.
    Heartbeat { test_req_id: Option<String> },
    /// Answer a logon with a logon; the session counts it as sent.
    LogonResponse,
    /// Close the connection, for this reason.
    Disconnect { reason: String },
}

/// What an action holds: the fields of a reject and whether it is sent,
/// the text of a logout, the range of a resend request.
pub enum ActionModel {
    Reject(Seq<(u32, Seq<char>)>, bool),
    Logout(Option<Seq<char>>),
    ResendRequest(u32, u32),
    Heartbeat(Option<Seq<char>>),
    LogonResponse,
    Disconnect(Seq<char>),
}

pub open spec fn action_view(a: SessionAction) -> ActionModel {
    match a {
        SessionAction::Reject(p) => ActionModel::Reject(fields_view(p.fields@), p.send),
        SessionAction::Logout { text } => ActionModel::Logout(
            match text {
                Some(t) => Some(t@),
                None => None,
            },
        ),
        SessionAction::ResendRequest { begin, end } => ActionModel::ResendRequest(begin, end),
        SessionAction::Heartbeat { test_req_id } => ActionModel::Heartbeat(
            match test_req_id {
                Some(t) => Some(t@),
                None => None,
            },
        ),
        SessionAction::LogonResponse => ActionModel::LogonResponse,
        SessionAction::Disconnect { reason } => ActionModel::Disconnect(reason@),
    }
}

/// Whether rejecting a message of type `t` numbered `n` (where it reads as
/// a number) moves the next expected sequence number `next` on.
pub open spec fn reject_moves(t: Seq<char>, n: Option<u32>, next: u32) -> bool {
    let k = match n {
        Some(x) => x,
        None => 0,
    };
    t != "A"@ && t != "4"@ && k == next && next < u32::MAX
}

/// The resend request under way after a message numbered `n` arrived.
pub open spec fn progress_range(r: Option<ResetRange>, n: u32, max: u32) -> Option<ResetRange> {
    match r {
        None => None,
        Some(range) => match resend_progress(range, n, max) {
            ResendProgress::Satisfied => None,
            ResendProgress::NextChunk { begin, end } => Some(ResetRange { chunk_end_seq_num: Some(end), ..range }),
            ResendProgress::Waiting => Some(range),
        },
    }
}

/// The resend request for the next chunk that a message numbered `n` sets
/// off, as actions.
pub open spec fn progress_actions(r: Option<ResetRange>, n: u32, max: u32) -> Seq<ActionModel> {
    match r {
        Some(range) => match resend_progress(range, n, max) {
            ResendProgress::NextChunk { begin, end } => seq![ActionModel::ResendRequest(begin, end)],
            _ => Seq::empty(),
        },
        None => Seq::empty(),
    }
}

/// Whether a message numbered `n` above the expected one asks for a resend
/// request: not where one under way covers it, unless redundant requests
/// are sent.
pub open spec fn needs_resend(range: Option<ResetRange>, send_redundant: bool, n: u32) -> bool {
    !(range matches Some(r) && !send_redundant && n >= r.begin_seq_num)
}

/// Whether the comp ids of a message with the header fields `h` are those
/// of the session `id` seen from the other side, or are not checked.
pub open spec fn comp_ids_ok(check: bool, id: SessionId, h: Seq<(u32, Seq<char>)>) -> bool {
    !check || (lookup(h, 56) == Some(id.sender_comp_id@) && lookup(h, 49) == Some(id.target_comp_id@))
}

/// `chrono::NaiveDateTime::parse_from_str(s, "%Y%m%d-%H:%M:%S%.f")` read
/// as an instant in UTC: the seconds since 1970 and the nanoseconds, which
/// chrono keeps under two seconds (a leap second counts past one).
pub uninterp spec fn utc_timestamp_text(s: Seq<char>) -> Option<UtcTime>;

/// The UTC timestamp written as `s` (`YYYYMMDD-HH:MM:SS` with optional
/// fractions of a second), where chrono reads it.
#[verifier::external_body]
fn parse_utc_timestamp(s: &str) -> (r: Option<UtcTime>)
    ensures
        r == utc_timestamp_text(s@),
        r matches Some(t) ==> t.nanos < 2_000_000_000,
{
    chrono::NaiveDateTime::parse_from_str(s, "%Y%m%d-%H:%M:%S%.f").ok().map(
        |d| UtcTime { secs: d.and_utc().timestamp(), nanos: d.and_utc().timestamp_subsec_nanos() },
    )
}

/// An instant with a leap second carried into the next second, where it
/// fits.
pub open spec fn normal_instant(t: UtcTime) -> Option<UtcTime> {
    if t.nanos < 1_000_000_000 {
        Some(t)
    } else if t.nanos < 2_000_000_000 && t.secs < i64::MAX {
        Some(UtcTime { secs: (t.secs + 1) as i64, nanos: (t.nanos - 1_000_000_000) as u32 })
    } else {
        None
    }
}

fn normalize(t: UtcTime) -> (r: Option<UtcTime>)
    ensures
        r == normal_instant(t),
{
    if t.nanos < 1_000_000_000 {
        Some(t)
    } else if t.nanos < 2_000_000_000 && t.secs < i64::MAX {
        Some(UtcTime { secs: t.secs + 1, nanos: t.nanos - 1_000_000_000 })
    } else {
        None
    }
}

/// The sending time of a message whose SendingTime field reads `v`.
pub open spec fn sending_instant(v: Seq<char>) -> Option<UtcTime> {
    match utc_timestamp_text(v) {
        Some(t) => normal_instant(t),
        None => None,
    }
}

/// The text of the header field `tag` of `m`, where it is set.
fn header_text(m: &Message, tag: Tag) -> (r: Option<String>)
    requires
        m.wf(),
    ensures
        match lookup(m@.header.fields, tag) {
            Some(v) => r matches Some(s) && s@ == v,
            None => r is None,
        },
{
    let h = m.header().map();
    if h.is_field_set(tag) {
        Some(h.get_field(tag).value().clone())
    } else {
        None
    }
}

/// The text of the body field `tag` of `m`, where it is set.
fn body_text(m: &Message, tag: Tag) -> (r: Option<String>)
    requires
        m.wf(),
    ensures
        match lookup(m@.body.fields, tag) {
            Some(v) => r matches Some(s) && s@ == v,
            None => r is None,
        },
{
    let b = m.body();
    if b.is_field_set(tag) {
        Some(b.get_field(tag).value().clone())
    } else {
        None
    }
}

/// What a message holds before it is read into.
pub open spec fn empty_message() -> MessageModel {
    MessageModel {
        header: FieldMap::empty_model(),
        body: FieldMap::empty_model(),
        trailer: FieldMap::empty_model(),
        application_data_dictionary: None,
        field: 0,
        valid_structure: true,
    }
}

/// The number held by the header field `tag` of `m`.
fn header_int(m: &Message, tag: Tag) -> (r: Result<u32, FieldMapError>)
    requires
        m.wf(),
    ensures
        r == int_field(m@.header, tag),
{
    m.header().map().get_int(tag)
}

/// The MsgType of a message, empty where it has none.
pub open spec fn type_of(m: MessageModel) -> Seq<char> {
    match lookup(m.header.fields, 35) {
        Some(t) => t,
        None => Seq::empty(),
    }
}

/// The MsgSeqNum of a message, where it reads as a number.
pub open spec fn seq_num_of(m: MessageModel) -> Option<u32> {
    match int_field(m.header, 34) {
        Ok(n) => Some(n),
        Err(_) => None,
    }
}

/// A FIX session: its identity, application, schedule, dictionaries and
/// state, and what it has to send.
pub struct Session {
    application: Box<dyn Application>,
    session_id: SessionId,
    schedule: SessionSchedule,
    msg_factory: Box<dyn MessageFactory>,
    session_dd: Option<DataDictionary>,
    app_dd: Option<DataDictionary>,
    sender_default_appl_ver_id: String,
    state: SessionState,
    config: SessionDefaults,
    reset_reason: &'static str,
    outbox: Vec<SessionAction>,
    app_calls: Ghost<Seq<AppCall>>,
}

impl Session {
    /// Well-formedness: the dictionaries are well formed.
    pub closed spec fn wf(&self) -> bool {
        &&& dd_wf(match &self.session_dd {
            Some(d) => Some(d),
            None => None,
        })
        &&& dd_wf(match &self.app_dd {
            Some(d) => Some(d),
            None => None,
        })
    }

    pub closed spec fn st(&self) -> SessionState {
        self.state
    }

    pub closed spec fn id(&self) -> SessionId {
        self.session_id
    }

    pub closed spec fn cfg(&self) -> SessionDefaults {
        self.config
    }

    /// The calls the session made of its application, in order.
    pub closed spec fn app_calls(&self) -> Seq<AppCall> {
        self.app_calls@
    }

    /// What the session has still to send, in order.
    pub closed spec fn outbox(&self) -> Seq<ActionModel> {
        self.outbox@.map_values(|a: SessionAction| action_view(a))
    }

    /// The session dictionary and the application dictionary.
    pub closed spec fn dictionaries(&self) -> (Option<crate::data_dictionary::DataDictionaryModel>, Option<
        crate::data_dictionary::DataDictionaryModel,
    >) {
        (
            match &self.session_dd {
                Some(d) => Some(d@),
                None => None,
            },
            match &self.app_dd {
                Some(d) => Some(d@),
                None => None,
            },
        )
    }

    /// Makes a session and tells its application: the state is new (for
    /// `is_initiator` and `heartbeat_int`) and reset, as a new session or
    /// out of its session time, the configuration is the default one, the
    /// application dictionary is `app_dd` for a FIXT session and the
    /// session dictionary otherwise, and "Created session" is logged. Where
    /// the application refuses the session, its error comes back.
    pub fn new(
        is_initiator: bool,
        app: Box<dyn Application>,
        store: Box<dyn MessageStore>,
        log: Box<dyn Log>,
        session_dd: Option<DataDictionary>,
        app_dd: Option<DataDictionary>,
        session_id: SessionId,
        schedule: SessionSchedule,
        heartbeat_int: u32,
        msg_factory: Box<dyn MessageFactory>,
        sender_default_appl_ver_id: &str,
        now: UtcTime,
    ) -> (r: Result<Session, HandleError>)
        requires
            utc_time_ok(now),
            dd_wf(match &session_dd {
                Some(d) => Some(d),
                None => None,
            }),
            dd_wf(match &app_dd {
                Some(d) => Some(d),
                None => None,
            }),
        ensures
            match r {
                Ok(s) => {
                    &&& s.wf()
                    &&& s.st()@ == fresh_state(is_initiator, heartbeat_int)
                    &&& s.st().next_target() == 1
                    &&& s.st().next_sender() == 1
                    &&& s.st().stored() == Map::<u32, Seq<char>>::empty()
                    &&& s.st().queued() == Map::<u32, Message>::empty()
                    &&& s.id() == session_id
                    &&& s.cfg() == default_config()
                    &&& s.dictionaries() == (
                        match &session_dd {
                            Some(d) => Some(d@),
                            None => None,
                        },
                        if session_id.is_fixt {
                            match &app_dd {
                                Some(d) => Some(d@),
                                None => None,
                            }
                        } else {
                            match &session_dd {
                                Some(d) => Some(d@),
                                None => None,
                            }
                        },
                    )
                    &&& s.reset_why()@ == (if session_time(schedule, now) {
                        "New session"@
                    } else {
                        "Out of SessionTime (Session construction)"@
                    })
                    &&& s.app_calls() == seq![AppCall::OnCreate]
                    &&& s.outbox().len() == 0
                },
                Err(e) => e is ApplicationError,
            },
    {
        let setup = session_setup(session_id.is_fixt, &schedule, now);
        let app_dd = if setup.app_dictionary_by_appl_ver_id {
            app_dd
        } else {
            match &session_dd {
                Some(d) => Some(d.duplicate()),
                None => None,
            }
        };
        let mut state = SessionState::new(is_initiator, log, heartbeat_int, store);
        state.reset(setup.reset_reason);
        let ghost calls = seq![AppCall::OnCreate];
        let mut s = Session {
            application: app,
            session_id,
            schedule,
            msg_factory,
            session_dd,
            app_dd,
            sender_default_appl_ver_id: sender_default_appl_ver_id.to_owned(),
            state,
            config: setup.config,
            reset_reason: setup.reset_reason,
            outbox: Vec::new(),
            app_calls: Ghost(calls),
        };
        match s.application.on_create(&s.session_id) {
            Err(e) => {
                return Err(HandleError::ApplicationError(e));
            },
            Ok(()) => {},
        }
        s.state.log_event(setup.event);
        Ok(s)
    }

    pub fn state(&self) -> (r: &SessionState)
        ensures
            *r == self.st(),
    {
        &self.state
    }

    pub fn session_id(&self) -> (r: &SessionId)
        ensures
            *r == self.id(),
    {
        &self.session_id
    }

    pub fn config(&self) -> (r: SessionDefaults)
        ensures
            r == self.cfg(),
    {
        self.config
    }

    pub closed spec fn reset_why(&self) -> &'static str {
        self.reset_reason
    }

    /// Why the state was reset when the session was made.
    pub fn reset_reason(&self) -> (r: &'static str)
        ensures
            r == self.reset_why(),
    {
        self.reset_reason
    }

    /// Whether `other` is this session with the same identity, configuration
    /// and dictionaries.
    pub open spec fn same_frame(&self, other: &Session) -> bool {
        &&& self.id() == other.id()
        &&& self.cfg() == other.cfg()
        &&& self.dictionaries() == other.dictionaries()
        &&& self.wf() == other.wf()
        &&& self.reset_why() == other.reset_why()
    }

    /// Whether `other` is this session's state but for the resend range and
    /// test request counter, with the same numbers, messages kept and queue.
    pub open spec fn same_numbers(&self, other: &Session) -> bool {
        &&& self.st().next_target() == other.st().next_target()
        &&& self.st().next_sender() == other.st().next_sender()
        &&& self.st().stored() == other.st().stored()
        &&& self.st().queued() == other.st().queued()
    }

    fn push_action(&mut self, a: SessionAction)
        ensures
            final(self).outbox() == old(self).outbox().push(action_view(a)),
            final(self).st() == old(self).st(),
            final(self).app_calls() == old(self).app_calls(),
            final(self).same_frame(&*old(self)),
    {
        let ghost before = self.outbox@;
        self.outbox.push(a);
        assert(self.outbox@.map_values(|a: SessionAction| action_view(a)) =~= before.map_values(
            |a: SessionAction| action_view(a),
        ).push(action_view(a)));
    }

    /// Asks for a reject of a message of type `msg_type` numbered `seq`
    /// (where it reads as a number) for `reason`, at `field`; the next
    /// expected sequence number moves on as the reject says.
    fn reject(&mut self, msg_type: &str, seq: Option<u32>, reason: &str, field: Option<Tag>)
        ensures
            final(self).outbox() == old(self).outbox().push(
                ActionModel::Reject(
                    reject_fields(
                        old(self).id().begin_string@,
                        msg_type@,
                        seq,
                        reason@,
                        match field {
                            Some(f) => f,
                            None => 0,
                        },
                    ),
                    old(self).st()@.received_logon,
                ),
            ),
            final(self).st()@ == old(self).st()@,
            final(self).st().next_target() == if reject_moves(msg_type@, seq, old(self).st().next_target()) {
                (old(self).st().next_target() + 1) as u32
            } else {
                old(self).st().next_target()
            },
            final(self).st().next_sender() == old(self).st().next_sender(),
            final(self).st().stored() == old(self).st().stored(),
            final(self).st().queued() == old(self).st().queued(),
            final(self).app_calls() == old(self).app_calls(),
            final(self).same_frame(&*old(self)),
    {
        let next = self.state.next_target_msg_seq_num();
        let plan = generate_reject(
            self.session_id.begin_string.as_str(),
            Some(msg_type),
            seq,
            reason,
            field,
            next,
            self.state.received_logon(),
        );
        if plan.incr_next_target && next < u32::MAX {
            self.state.incr_next_target_msg_seq_num();
        }
        self.push_action(SessionAction::Reject(plan));
    }

    /// A message numbered `n` above the expected one: it is queued, and a
    /// resend request is asked for unless one under way covers it (and
    /// redundant requests are not sent), or its chunk would pass the last
    /// sequence number.
    fn too_high(&mut self, message: Message, n: u32)
        requires
            n > old(self).st().next_target(),
        ensures
            final(self).st().queued() == old(self).st().queued().insert(n, message),
            final(self).st().next_target() == old(self).st().next_target(),
            final(self).st().next_sender() == old(self).st().next_sender(),
            final(self).st().stored() == old(self).st().stored(),
            final(self).app_calls() == old(self).app_calls(),
            final(self).same_frame(&*old(self)),
            ({
                let next = old(self).st().next_target();
                let max = old(self).cfg().max_messages_in_resend_request;
                let (b, e, c) = resend_range(old(self).id().begin_string@, next, n, max);
                if needs_resend(old(self).st()@.resend_range, old(self).cfg().send_redundant_resend_requests, n)
                    && (max == 0 || next + max - 1 <= u32::MAX) {
                    &&& final(self).outbox() == old(self).outbox().push(ActionModel::ResendRequest(b, c))
                    &&& final(self).st()@ == (SessionStateModel {
                        resend_range: Some(
                            ResetRange {
                                begin_seq_num: b,
                                end_seq_num: e,
                                chunk_end_seq_num: if max > 0 {
                                    Some(c)
                                } else {
                                    None
                                },
                            },
                        ),
                        ..old(self).st()@
                    })
                } else {
                    &&& final(self).outbox() == old(self).outbox()
                    &&& final(self).st()@ == old(self).st()@
                }
            }),
    {
        let next = self.state.next_target_msg_seq_num();
        self.state.queue(n, message);
        let max = self.config.max_messages_in_resend_request;
        let fits = max == 0 || (next as u64) + (max as u64) - 1 <= u32::MAX as u64;
        if needs_resend_request(self.state.resend_range(), self.config.send_redundant_resend_requests, n) && fits {
            let (b, e, c) = generate_resend_request(self.session_id.begin_string.as_str(), next, n, max);
            let chunk = if max > 0 {
                Some(c)
            } else {
                None
            };
            self.state.set_resend_range(Some(ResetRange { begin_seq_num: b, end_seq_num: e, chunk_end_seq_num: chunk }));
            self.push_action(SessionAction::ResendRequest { begin: b, end: c });
        }
    }

    /// The resend request under way, as a message numbered `n` arrives:
    /// cleared once satisfied, or moved on to its next chunk, which is asked
    /// for.
    fn track_resend(&mut self, n: u32)
        ensures
            final(self).st()@ == (SessionStateModel {
                resend_range: progress_range(
                    old(self).st()@.resend_range,
                    n,
                    old(self).cfg().max_messages_in_resend_request,
                ),
                ..old(self).st()@
            }),
            final(self).outbox() == old(self).outbox() + progress_actions(
                old(self).st()@.resend_range,
                n,
                old(self).cfg().max_messages_in_resend_request,
            ),
            final(self).same_numbers(&*old(self)),
            final(self).app_calls() == old(self).app_calls(),
            final(self).same_frame(&*old(self)),
    {
        match self.state.resend_range() {
            None => {
                assert(old(self).outbox() + Seq::<ActionModel>::empty() =~= old(self).outbox());
            },
            Some(range) => {
                let max = self.config.max_messages_in_resend_request;
                match resend_progress_of(range, n, max) {
                    ResendProgress::Satisfied => {
                        self.state.set_resend_range(None);
                        assert(old(self).outbox() + Seq::<ActionModel>::empty() =~= old(self).outbox());
                    },
                    ResendProgress::NextChunk { begin, end } => {
                        self.state.set_resend_range(Some(ResetRange { chunk_end_seq_num: Some(end), ..range }));
                        self.push_action(SessionAction::ResendRequest { begin, end });
                        assert(old(self).outbox().push(ActionModel::ResendRequest(begin, end)) =~= old(self).outbox()
                            + seq![ActionModel::ResendRequest(begin, end)]);
                    },
                    ResendProgress::Waiting => {
                        assert(old(self).outbox() + Seq::<ActionModel>::empty() =~= old(self).outbox());
                    },
                }
            },
        }
    }

    /// A message numbered `n` below the expected one: unless it is a
    /// possible duplicate, a logout saying so is asked for. A possible
    /// duplicate is checked against its OrigSendingTime: rejected where that
    /// is missing; rejected, then logged out, where it is unreadable or comes
    /// a whole second or more after SendingTime (a sequence reset needs none
    /// where none is required).
    fn too_low(&mut self, message: &Message, msg_type: &str, n: u32)
        requires
            message.wf(),
        ensures
            final(self).st()@ == old(self).st()@,
            final(self).st().queued() == old(self).st().queued(),
            final(self).st().next_sender() == old(self).st().next_sender(),
            final(self).st().stored() == old(self).st().stored(),
            final(self).app_calls() == old(self).app_calls(),
            final(self).same_frame(&*old(self)),
            lookup(message@.header.fields, 43) != Some("Y"@) ==> {
                &&& final(self).outbox() == old(self).outbox().push(
                    ActionModel::Logout(
                        Some(
                            "MsgSeqNum too low, expecting "@ + crate::text::decimal(
                                old(self).st().next_target() as nat,
                            ) + " but received "@ + crate::text::decimal(n as nat),
                        ),
                    ),
                )
                &&& final(self).st().next_target() == old(self).st().next_target()
            },
    {
        let poss_dup = match header_text(message, 43) {
            Some(v) => str_eq(v.as_str(), "Y"),
            None => false,
        };
        if !poss_dup {
            let next = self.state.next_target_msg_seq_num();
            let err = too_low_error(next, n);
            self.push_action(SessionAction::Logout { text: Some(err) });
            return;
        }
        if str_eq(msg_type, "4") && !self.config.requires_orig_sending_time {
            return;
        }
        let seq = match header_int(message, 34) {
            Ok(k) => Some(k),
            Err(_) => None,
        };
        let orig = match header_text(message, 122) {
            None => {
                self.reject(msg_type, seq, SessionRejectReason::REQUIRED_TAG_MISSING, Some(122));
                return;
            },
            Some(v) => match parse_utc_timestamp(v.as_str()) {
                Some(t) => normalize(t),
                None => None,
            },
        };
        let sending = match header_text(message, 52) {
            None => None,
            Some(v) => match parse_utc_timestamp(v.as_str()) {
                Some(t) => normalize(t),
                None => None,
            },
        };
        let late = match (orig, sending) {
            (Some(o), Some(st)) => crate::session::session_logic::do_poss_dup(
                msg_type,
                self.config.requires_orig_sending_time,
                Some(o),
                st,
            ) != crate::session::session_logic::PossDupAction::Accept,
            _ => true,
        };
        if late {
            self.reject(msg_type, seq, SessionRejectReason::SENDING_TIME_ACCURACY_PROBLEM, Some(122));
            self.push_action(SessionAction::Logout { text: None });
        }
    }

    /// The call that hands `m` to the application.
    spec fn handed(&self, m: MessageModel, admin: bool, out: Option<ApplicationError>) -> AppCall {
        if admin {
            AppCall::FromAdmin(m, out)
        } else {
            AppCall::FromApp(m, out)
        }
    }

    /// Hands a verified message to the application, once: to `from_admin`
    /// for a message of the session layer, to `from_app` otherwise. The
    /// message comes back where the application takes it; its error comes
    /// back where it refuses it.
    fn deliver(&mut self, message: Message, admin: bool) -> (r: Result<Option<Message>, HandleError>)
        requires
            message.wf(),
        ensures
            handed_over(old(self).app_calls(), final(self).app_calls(), message@, admin, r),
            final(self).st()@ == (SessionStateModel { test_request_counter: 0, ..old(self).st()@ }),
            final(self).same_numbers(&*old(self)),
            final(self).outbox() == old(self).outbox(),
            final(self).same_frame(&*old(self)),
    {
        self.state.received_now();
        let copy = message.duplicate();
        let ghost m = message@;
        let result = if admin {
            self.application.from_admin(message, &self.session_id)
        } else {
            self.application.from_app(message, &self.session_id)
        };
        let ghost before = self.app_calls@;
        match result {
            Ok(()) => {
                proof {
                    self.app_calls@ = before.push(self.handed(m, admin, None));
                    assert(self.app_calls@.drop_last() =~= before);
                }
                Ok(Some(copy))
            },
            Err(e) => {
                proof {
                    self.app_calls@ = before.push(self.handed(m, admin, Some(e)));
                    assert(self.app_calls@.drop_last() =~= before);
                }
                Err(HandleError::ApplicationError(e))
            },
        }
    }

    /// Verifies a received message before it is handled, and hands it to
    /// the application where it passes:
    /// - its MsgType, SenderCompID and TargetCompID must be set;
    /// - comp ids that are not the session's (seen from the other side) are
    ///   rejected and a logout is asked for;
    /// - where sequence numbers are checked, a MsgSeqNum above the expected
    ///   one is queued (and a resend request asked for), one below is
    ///   handled as too low;
    /// - a resend request under way moves on;
    /// - where latency is checked, a SendingTime more than the allowed
    ///   seconds away from `now` is rejected and a logout asked for;
    /// - then the message goes, once, to `from_admin` or `from_app`, and
    ///   comes back.
    pub fn verify_opt(&mut self, message: Message, check_too_high: bool, check_too_low: bool, now: UtcTime) -> (r: Result<
        Option<Message>,
        HandleError,
    >)
        requires
            message.wf(),
            now.nanos < 1_000_000_000,
        ensures
            final(self).same_frame(&*old(self)),
            ({
                let m = message@;
                let h = m.header.fields;
                let o = *old(self);
                let f = *final(self);
                let checks = check_too_high || check_too_low;
                let next = o.st().next_target();
                let t35 = lookup(h, 35)->Some_0;
                if lookup(h, 35) is None || lookup(h, 49) is None || lookup(h, 56) is None {
                    &&& r matches Err(HandleError::FieldMapError(FieldMapError::FieldNotFound(t))) && t == (if lookup(
                        h,
                        35,
                    ) is None {
                        35u32
                    } else if lookup(h, 49) is None {
                        49u32
                    } else {
                        56u32
                    })
                    &&& f.st() == o.st()
                    &&& f.app_calls() == o.app_calls()
                    &&& f.outbox() == o.outbox()
                } else if !comp_ids_ok(o.cfg().check_comp_id, o.id(), h) {
                    &&& r matches Ok(None)
                    &&& f.app_calls() == o.app_calls()
                    &&& f.st()@ == o.st()@
                    &&& f.st().queued() == o.st().queued()
                    &&& f.st().next_target() == if reject_moves(t35, seq_num_of(m), next) {
                        (next + 1) as u32
                    } else {
                        next
                    }
                    &&& f.outbox() == o.outbox() + seq![
                        ActionModel::Reject(
                            reject_fields(o.id().begin_string@, t35, seq_num_of(m), "Comp ID"@, 0),
                            o.st()@.received_logon,
                        ),
                        ActionModel::Logout(None),
                    ]
                } else if checks && int_field(m.header, 34) is Err {
                    &&& r matches Err(HandleError::FieldMapError(e)) && int_field(m.header, 34) == Err::<u32, FieldMapError>(e)
                    &&& f.st() == o.st()
                    &&& f.app_calls() == o.app_calls()
                    &&& f.outbox() == o.outbox()
                } else {
                    let n = if checks {
                        int_field(m.header, 34)->Ok_0
                    } else {
                        0u32
                    };
                    if check_too_high && n > next {
                        &&& r matches Ok(None)
                        &&& f.app_calls() == o.app_calls()
                        &&& f.st().queued() == o.st().queued().insert(n, message)
                        &&& f.st().next_target() == next
                    } else if check_too_low && n < next {
                        &&& r matches Ok(None)
                        &&& f.app_calls() == o.app_calls()
                        &&& f.st().queued() == o.st().queued()
                        &&& lookup(h, 43) != Some("Y"@) ==> f.outbox() == o.outbox().push(
                            ActionModel::Logout(
                                Some(
                                    "MsgSeqNum too low, expecting "@ + crate::text::decimal(next as nat)
                                        + " but received "@ + crate::text::decimal(n as nat),
                                ),
                            ),
                        )
                    } else {
                        let range1 = if checks {
                            progress_range(o.st()@.resend_range, n, o.cfg().max_messages_in_resend_request)
                        } else {
                            o.st()@.resend_range
                        };
                        let acts1 = if checks {
                            progress_actions(o.st()@.resend_range, n, o.cfg().max_messages_in_resend_request)
                        } else {
                            Seq::empty()
                        };
                        let sending = match lookup(h, 52) {
                            Some(v) => sending_instant(v),
                            None => None,
                        };
                        &&& f.st().queued() == o.st().queued()
                        &&& f.st().next_sender() == o.st().next_sender()
                        &&& if o.cfg().check_latency && lookup(h, 52) is None {
                            &&& r matches Err(HandleError::FieldMapError(FieldMapError::FieldNotFound(t))) && t == 52
                            &&& f.app_calls() == o.app_calls()
                            &&& f.outbox() == o.outbox() + acts1
                            &&& f.st()@ == (SessionStateModel { resend_range: range1, ..o.st()@ })
                        } else if o.cfg().check_latency && sending is None {
                            &&& r matches Err(HandleError::FieldMapError(FieldMapError::IncorrectDataFormat(t))) && t == 52
                            &&& f.app_calls() == o.app_calls()
                            &&& f.outbox() == o.outbox() + acts1
                            &&& f.st()@ == (SessionStateModel { resend_range: range1, ..o.st()@ })
                        } else if o.cfg().check_latency && !good_time(true, now, sending->Some_0, o.cfg().max_latency) {
                            &&& r matches Ok(None)
                            &&& f.app_calls() == o.app_calls()
                            &&& f.outbox() == o.outbox() + acts1 + seq![
                                ActionModel::Reject(
                                    reject_fields(o.id().begin_string@, t35, seq_num_of(m), "Sending time"@, 0),
                                    o.st()@.received_logon,
                                ),
                                ActionModel::Logout(None),
                            ]
                            &&& f.st()@ == (SessionStateModel { resend_range: range1, ..o.st()@ })
                        } else {
                            &&& handed_over(o.app_calls(), f.app_calls(), m, admin_msg_type(t35), r)
                            &&& f.outbox() == o.outbox() + acts1
                            &&& f.st()@ == (SessionStateModel { resend_range: range1, test_request_counter: 0, ..o.st()@ })
                            &&& f.st().next_target() == next
                            &&& f.st().stored() == o.st().stored()
                        }
                    }
                }
            }),
    {
        let ghost h = message@.header.fields;
        let msg_type = match header_text(&message, 35) {
            None => {
                return Err(HandleError::FieldMapError(FieldMapError::FieldNotFound(35)));
            },
            Some(t) => t,
        };
        let sender = match header_text(&message, 49) {
            None => {
                return Err(HandleError::FieldMapError(FieldMapError::FieldNotFound(49)));
            },
            Some(t) => t,
        };
        let target = match header_text(&message, 56) {
            None => {
                return Err(HandleError::FieldMapError(FieldMapError::FieldNotFound(56)));
            },
            Some(t) => t,
        };
        let seq = match header_int(&message, 34) {
            Ok(k) => Some(k),
            Err(_) => None,
        };
        assert(seq == seq_num_of(message@));
        if !is_correct_comp_id(
            self.config.check_comp_id,
            self.session_id.sender_comp_id.as_str(),
            self.session_id.target_comp_id.as_str(),
            target.as_str(),
            sender.as_str(),
        ) {
            self.reject(msg_type.as_str(), seq, SessionRejectReason::COMPID_PROBLEM, None);
            self.push_action(SessionAction::Logout { text: None });
            proof {
                reveal_strlit("Comp ID");
                assert(old(self).outbox().push(
                    ActionModel::Reject(
                        reject_fields(old(self).id().begin_string@, msg_type@, seq, "Comp ID"@, 0),
                        old(self).st()@.received_logon,
                    ),
                ).push(ActionModel::Logout(None)) =~= old(self).outbox() + seq![
                    ActionModel::Reject(
                        reject_fields(old(self).id().begin_string@, msg_type@, seq, "Comp ID"@, 0),
                        old(self).st()@.received_logon,
                    ),
                    ActionModel::Logout(None),
                ]);
            }
            return Ok(None);
        }
        let checks = check_too_high || check_too_low;
        let n: u32 = if checks {
            match header_int(&message, 34) {
                Err(e) => {
                    return Err(HandleError::FieldMapError(e));
                },
                Ok(k) => k,
            }
        } else {
            0
        };
        let next = self.state.next_target_msg_seq_num();
        if check_too_high && n > next {
            self.too_high(message, n);
            return Ok(None);
        }
        if check_too_low && n < next {
            self.too_low(&message, msg_type.as_str(), n);
            return Ok(None);
        }
        let ghost mid_outbox = self.outbox();
        if checks {
            self.track_resend(n);
        } else {
            assert(old(self).outbox() + Seq::<ActionModel>::empty() =~= old(self).outbox());
        }
        if self.config.check_latency {
            let v = match header_text(&message, 52) {
                None => {
                    return Err(HandleError::FieldMapError(FieldMapError::FieldNotFound(52)));
                },
                Some(v) => v,
            };
            let t = match parse_utc_timestamp(v.as_str()) {
                Some(t) => normalize(t),
                None => None,
            };
            let t = match t {
                None => {
                    return Err(HandleError::FieldMapError(FieldMapError::IncorrectDataFormat(52)));
                },
                Some(t) => t,
            };
            if !is_good_time(true, now, t, self.config.max_latency) {
                let ghost o1 = self.outbox();
                self.state.log_event("Sending time accuracy problem");
                self.reject(msg_type.as_str(), seq, SessionRejectReason::SENDING_TIME_ACCURACY_PROBLEM, None);
                self.push_action(SessionAction::Logout { text: None });
                proof {
                    reveal_strlit("Sending time");
                    assert(o1.push(
                        ActionModel::Reject(
                            reject_fields(old(self).id().begin_string@, msg_type@, seq, "Sending time"@, 0),
                            old(self).st()@.received_logon,
                        ),
                    ).push(ActionModel::Logout(None)) =~= o1 + seq![
                        ActionModel::Reject(
                            reject_fields(old(self).id().begin_string@, msg_type@, seq, "Sending time"@, 0),
                            old(self).st()@.received_logon,
                        ),
                        ActionModel::Logout(None),
                    ]);
                }
                return Ok(None);
            }
        }
        let t = msg_type.as_str();
        let admin = str_eq(t, "0") || str_eq(t, "A") || str_eq(t, "1") || str_eq(t, "2") || str_eq(t, "3") || str_eq(t, "4")
            || str_eq(t, "5");
        self.deliver(message, admin)
    }

    /// Whether the session is logged on: it sent and received a logon.
    pub open spec fn logged_on(&self) -> bool {
        self.st()@.sent_logon && self.st()@.received_logon
    }

    /// The message that `text` reads as, with this session's check of
    /// length and checksum and its dictionaries.
    pub open spec fn read_in(&self, text: Seq<char>) -> Result<MessageModel, Option<ParseErrorModel>> {
        read_message(
            empty_message(),
            text,
            self.cfg().validate_length_and_checksum,
            self.dictionaries().0,
            self.dictionaries().1,
            false,
            false,
        )
    }

    /// Where a read message of this session's version goes.
    pub open spec fn routed(&self, m: MessageModel) -> Option<MessageRoute> {
        if lookup(m.header.fields, 8) == Some(self.id().begin_string@) {
            Some(route(type_of(m), self.logged_on()))
        } else {
            None
        }
    }

    /// The session's state, calls and actions are those of `other`.
    pub open spec fn unchanged_from(&self, other: &Session) -> bool {
        &&& self.st() == other.st()
        &&& self.app_calls() == other.app_calls()
        &&& self.outbox() == other.outbox()
    }

    /// Handles a message received as text:
    /// - it is read (with the session's check of length and checksum and
    ///   its dictionaries); a text that does not read gives the error;
    /// - a message of another version is refused;
    /// - a logon or logout goes to its handler; any other message before
    ///   the logon asks for a disconnection;
    /// - heartbeats, test requests and other messages are verified, and
    ///   each one that passes moves the next expected sequence number on
    ///   (a test request is answered by a heartbeat); one numbered too high
    ///   is queued;
    /// - a sequence reset moves the next expected sequence number to its
    ///   NewSeqNo, or is rejected where that is lower;
    /// - resend requests are not handled: they give an error.
    #[verifier::spinoff_prover]
    #[verifier::rlimit(40)]
    pub fn next_msg(&mut self, text: &str, now: UtcTime) -> (r: Result<(), HandleError>)
        requires
            old(self).wf(),
            crate::text::all_ascii(text@),
            now.nanos < 1_000_000_000,
        ensures
            final(self).same_frame(&*old(self)),
            old(self).read_in(text@) is Err ==> {
                &&& r matches Err(HandleError::MessageParseError(_))
                &&& final(self).unchanged_from(&*old(self))
            },
            old(self).read_in(text@) matches Ok(m) ==> lookup(m.header.fields, 8) != Some(old(self).id().begin_string@)
                ==> {
                &&& r matches Err(HandleError::UnsupportedVersion { .. })
                &&& final(self).unchanged_from(&*old(self))
            },
            old(self).read_in(text@) matches Ok(m) ==> old(self).routed(m) == Some(MessageRoute::NotLoggedOn) ==> {
                &&& r is Ok
                &&& final(self).st() == old(self).st()
                &&& final(self).app_calls() == old(self).app_calls()
                &&& final(self).outbox() == old(self).outbox().push(
                    ActionModel::Disconnect("Received msg type '"@ + type_of(m) + "' when not logged on"@),
                )
            },
            old(self).read_in(text@) matches Ok(m) ==> (old(self).routed(m) == Some(MessageRoute::Verify) || old(self).routed(m)
                == Some(MessageRoute::Heartbeat) || old(self).routed(m) == Some(MessageRoute::TestRequest)) ==> {
                let next = old(self).st().next_target();
                let h = m.header.fields;
                &&& final(self).app_calls().len() <= old(self).app_calls().len() + 1
                &&& final(self).app_calls().len() == old(self).app_calls().len() + 1 && r is Ok && next < u32::MAX ==> final(self).st().next_target() == next + 1 && final(self).st().queued() == old(self).st().queued()
                &&& (int_field(m.header, 34) matches Ok(n) && n > next && comp_ids_ok(
                    old(self).cfg().check_comp_id,
                    old(self).id(),
                    h,
                ) && lookup(h, 49) is Some && lookup(h, 56) is Some && lookup(h, 35) is Some) ==> {
                    let n = int_field(m.header, 34)->Ok_0;
                    &&& final(self).st().next_target() == next
                    &&& final(self).st().queued().dom() == old(self).st().queued().dom().insert(n)
                    &&& final(self).st().queued()[n]@ == m
                    &&& forall|k: u32|
                        k != n && old(self).st().queued().contains_key(k) ==> final(self).st().queued()[k] == old(self).st().queued()[k]
                }
            },
            old(self).read_in(text@) matches Ok(m) ==> old(self).routed(m) == Some(MessageRoute::ResendRequest) ==> r matches Err(
                HandleError::String(_),
            ),
    {
        let mut message = Message::default();
        let sdd = self.session_dd.as_ref();
        let add = self.app_dd.as_ref();
        assert(dd_view(sdd) == self.dictionaries().0);
        assert(dd_view(add) == self.dictionaries().1);
        let read = message.from_string(text, self.config.validate_length_and_checksum, sdd, add, None, false);
        match read {
            Err(e) => {
                return Err(HandleError::MessageParseError(e));
            },
            Ok(()) => {},
        }
        let begin = header_text(&message, 8);
        let same_version = match &begin {
            Some(b) => str_eq(b.as_str(), self.session_id.begin_string.as_str()),
            None => false,
        };
        if !same_version {
            let actual = match begin {
                Some(b) => b,
                None => String::new(),
            };
            return Err(HandleError::UnsupportedVersion { expected: self.session_id.begin_string.clone(), actual });
        }
        let msg_type = match header_text(&message, 35) {
            Some(t) => t,
            None => String::new(),
        };
        proof {
            reveal_strlit("");
        }
        let logged_on = self.state.sent_logon() && self.state.received_logon();
        match route_message(msg_type.as_str(), logged_on) {
            MessageRoute::NotLoggedOn => {
                let reason = not_logged_on_reason(msg_type.as_str());
                self.push_action(SessionAction::Disconnect { reason });
                Ok(())
            },
            MessageRoute::ResendRequest => Err(HandleError::String("ResendRequest is not handled".to_owned())),
            MessageRoute::Logon => self.next_logon(message, now),
            MessageRoute::Logout => self.next_logout(message, now),
            MessageRoute::SequenceReset => self.next_sequence_reset(message, now),
            MessageRoute::TestRequest => {
                let test_req_id = body_text(&message, 112);
                match self.verify_opt(message, true, true, now) {
                    Err(e) => Err(e),
                    Ok(None) => Ok(()),
                    Ok(Some(_)) => {
                        self.push_action(SessionAction::Heartbeat { test_req_id });
                        self.incr_target();
                        Ok(())
                    },
                }
            },
            _ => {
                match self.verify_opt(message, true, true, now) {
                    Err(e) => Err(e),
                    Ok(None) => Ok(()),
                    Ok(Some(_)) => {
                        self.incr_target();
                        Ok(())
                    },
                }
            },
        }
    }

    /// Handles a verified logout: it is answered where the session sent no
    /// logout, the next expected sequence number moves on, the state is
    /// reset where the session resets on logon, and a disconnection is asked
    /// for.
    fn next_logout(&mut self, message: Message, now: UtcTime) -> (r: Result<(), HandleError>)
        requires
            message.wf(),
            now.nanos < 1_000_000_000,
        ensures
            final(self).same_frame(&*old(self)),
    {
        match self.verify_opt(message, false, false, now) {
            Err(e) => Err(e),
            Ok(None) => Ok(()),
            Ok(Some(_)) => {
                let reply = logout_reply(self.state.sent_logout(), self.config.reset_on_logon);
                self.state.log_event(reply.reason);
                if reply.send_logout {
                    self.push_action(SessionAction::Logout { text: None });
                }
                self.incr_target();
                if reply.reset {
                    self.state.reset("ResetOnLogout");
                }
                self.push_action(SessionAction::Disconnect { reason: reply.reason.to_owned() });
                Ok(())
            },
        }
    }

    /// Handles a sequence reset: verified (its sequence number checked where
    /// it fills a gap), then the next expected sequence number moves to its
    /// NewSeqNo where that is higher, and the reset is rejected where it is
    /// lower.
    fn next_sequence_reset(&mut self, message: Message, now: UtcTime) -> (r: Result<(), HandleError>)
        requires
            message.wf(),
            now.nanos < 1_000_000_000,
        ensures
            final(self).same_frame(&*old(self)),
    {
        let gap_fill = match body_text(&message, 123) {
            Some(v) => str_eq(v.as_str(), "Y"),
            None => false,
        };
        let new_seq_no = match body_text(&message, 36) {
            None => None,
            Some(_) => match message.body().get_int(36) {
                Err(e) => {
                    return Err(HandleError::FieldMapError(e));
                },
                Ok(n) => Some(n),
            },
        };
        match self.verify_opt(message, gap_fill, gap_fill, now) {
            Err(e) => Err(e),
            Ok(None) => Ok(()),
            Ok(Some(m)) => {
                if let Some(n) = new_seq_no {
                    let next = self.state.next_target_msg_seq_num();
                    match crate::session::session_logic::next_sequence_reset(n, next) {
                        crate::session::session_logic::SequenceResetAction::SetNextTarget(k) => {
                            self.state.set_next_target_msg_seq_num(k);
                        },
                        crate::session::session_logic::SequenceResetAction::Reject => {
                            let t = match header_text(&m, 35) {
                                Some(t) => t,
                                None => String::new(),
                            };
                            let seq = match header_int(&m, 34) {
                                Ok(k) => Some(k),
                                Err(_) => None,
                            };
                            self.reject(t.as_str(), seq, SessionRejectReason::VALUE_IS_INCORRECT, None);
                        },
                        crate::session::session_logic::SequenceResetAction::Ignore => {},
                    }
                }
                Ok(())
            },
        }
    }

    /// Handles a logon: a reset that it asks for (ResetSeqNumFlag=Y) resets
    /// the state unless the session asked for one, an acceptor that resets
    /// on logon resets; the logon is verified (its sequence number checked
    /// where it is too low); then it is received, an acceptor takes its
    /// heartbeat interval and answers (its logon then counts as sent), the
    /// resets are forgotten, a number
    /// above the expected one (without a reset) is queued and a resend
    /// request asked for, or else the next expected number moves on; once
    /// logged on, the application is told.
    fn next_logon(&mut self, message: Message, now: UtcTime) -> (r: Result<(), HandleError>)
        requires
            message.wf(),
            now.nanos < 1_000_000_000,
        ensures
            final(self).same_frame(&*old(self)),
    {
        let reset_flag = match body_text(&message, 141) {
            Some(v) => Some(str_eq(v.as_str(), "Y")),
            None => None,
        };
        let prelude = crate::session::session_flow::logon_prelude(
            reset_flag,
            self.state.sent_reset(),
            self.state.is_initiator(),
            self.config.reset_on_logon,
            self.config.refresh_on_logon,
        );
        let sent_reset = self.state.sent_reset();
        self.state.set_resets(prelude.received_reset, sent_reset);
        if prelude.received_reset {
            self.state.log_event("Sequence numbers reset due to ResetSeqNumFlag=Y");
            if prelude.reset_by_counterparty {
                self.state.reset("Reset requested by counterparty");
            }
        }
        if prelude.reset_on_logon {
            self.state.reset("ResetOnLogon");
        }
        let logon = match self.verify_opt(message, false, true, now) {
            Err(e) => {
                return Err(e);
            },
            Ok(None) => {
                return Ok(());
            },
            Ok(Some(m)) => m,
        };
        self.state.set_received_logon(true);
        self.state.log_event("Received logon");
        if !self.state.is_initiator() {
            let heartbeat_int = match logon.body().get_int(108) {
                Err(e) => {
                    return Err(HandleError::FieldMapError(e));
                },
                Ok(h) => h,
            };
            self.state.set_heartbeat_int(heartbeat_int);
            self.push_action(SessionAction::LogonResponse);
            self.state.set_sent_logon(true);
            self.state.log_event("Responding to logon request");
        }
        self.state.set_resets(false, false);
        let n = match header_int(&logon, 34) {
            Err(e) => {
                return Err(HandleError::FieldMapError(e));
            },
            Ok(k) => k,
        };
        let next = self.state.next_target_msg_seq_num();
        match crate::session::session_flow::logon_outcome(true, self.state.is_initiator(), n, next, prelude.received_reset) {
            crate::session::session_flow::LogonOutcome::Received { target_too_high: true, .. } => {
                self.too_high(logon, n);
            },
            _ => {
                self.incr_target();
            },
        }
        if self.state.sent_logon() && self.state.received_logon() {
            match self.application.on_logon(&self.session_id) {
                Err(e) => {
                    proof {
                        self.app_calls@ = self.app_calls@.push(AppCall::OnLogon);
                    }
                    return Err(HandleError::ApplicationError(e));
                },
                Ok(()) => {
                    proof {
                        self.app_calls@ = self.app_calls@.push(AppCall::OnLogon);
                    }
                },
            }
        }
        Ok(())
    }

    /// Expects the next message one number further, where there is one.
    fn incr_target(&mut self)
        ensures
            final(self).st()@ == old(self).st()@,
            final(self).st().next_target() == if old(self).st().next_target() < u32::MAX {
                (old(self).st().next_target() + 1) as u32
            } else {
                old(self).st().next_target()
            },
            final(self).st().next_sender() == old(self).st().next_sender(),
            final(self).st().stored() == old(self).st().stored(),
            final(self).st().queued() == old(self).st().queued(),
            final(self).app_calls() == old(self).app_calls(),
            final(self).outbox() == old(self).outbox(),
            final(self).same_frame(&*old(self)),
    {
        if self.state.next_target_msg_seq_num() < u32::MAX {
            self.state.incr_next_target_msg_seq_num();
        }
    }

    /// Sends `message`, of type MsgType: its header is filled in for this
    /// session, with the next sequence number and the sending time
    /// `sending_time`; an admin message is shown to the application's
    /// `to_admin`, which may change it (where it refuses to have it sent,
    /// the message goes as it was), another message to `to_app`, whose
    /// refusal to have it sent means that nothing is sent. The text of the
    /// message sent is kept under its number where the session keeps
    /// messages, the next sequence number moves on, and the text comes back
    /// to be written. An error of the application comes back, and then
    /// nothing is sent.
    pub fn send_raw(&mut self, message: Message, sending_time: &str) -> (r: Result<Option<String>, HandleError>)
        requires
            old(self).wf(),
            message.wf(),
            old(self).st().next_sender() < u32::MAX,
        ensures
            final(self).same_frame(&*old(self)),
            final(self).outbox() == old(self).outbox(),
            final(self).st()@ == old(self).st()@,
            final(self).st().next_target() == old(self).st().next_target(),
            final(self).st().queued() == old(self).st().queued(),
            lookup(message@.header.fields, 35) is None ==> {
                &&& r == Err::<Option<String>, HandleError>(HandleError::FieldMapError(FieldMapError::FieldNotFound(35)))
                &&& final(self).unchanged_from(&*old(self))
            },
            lookup(message@.header.fields, 35) is Some ==> {
                let n = old(self).st().next_sender();
                let next = old(self).st().next_target();
                let call = final(self).app_calls().last();
                let p = call_message(call);
                let out = call_outcome(call);
                &&& final(self).app_calls().len() == old(self).app_calls().len() + 1
                &&& final(self).app_calls().drop_last() == old(self).app_calls()
                &&& if admin_msg_type(lookup(message@.header.fields, 35)->Some_0) {
                    call == AppCall::ToAdmin(p, out)
                } else {
                    call == AppCall::ToApp(p, out)
                }
                &&& forall|t: u32|
                    #[trigger] lookup(p.header.fields, t) == initialized_value(
                        message@.header.fields,
                        t,
                        old(self).id(),
                        0,
                        n,
                        next,
                        old(self).cfg().enable_last_msg_seq_num_processed && next >= 1,
                        sending_time@,
                    )
                &&& p.body == message@.body
                &&& p.trailer == message@.trailer
                &&& match r {
                    Ok(Some(text)) => {
                        &&& final(self).st().next_sender() == n + 1
                        &&& final(self).st().stored() == if old(self).cfg().persist_messages {
                            old(self).st().stored().insert(n, text@)
                        } else {
                            old(self).st().stored()
                        }
                        &&& (out is None || call is ToAdmin)
                        &&& out is Some ==> text@ == message_text(p)
                    },
                    Ok(None) => {
                        &&& call is ToApp
                        &&& out == Some(ApplicationError::DoNotSend)
                        &&& final(self).st().next_sender() == n
                        &&& final(self).st().stored() == old(self).st().stored()
                    },
                    Err(e) => {
                        &&& out matches Some(a) && e == HandleError::ApplicationError(a)
                        &&& (call is ToAdmin ==> out != Some(ApplicationError::DoNotSend))
                        &&& (call is ToApp ==> out != Some(ApplicationError::DoNotSend))
                        &&& final(self).st().next_sender() == n
                        &&& final(self).st().stored() == old(self).st().stored()
                    },
                }
            },
    {
        let msg_type = match header_text(&message, 35) {
            None => {
                return Err(HandleError::FieldMapError(FieldMapError::FieldNotFound(35)));
            },
            Some(t) => t,
        };
        let n = self.state.next_sender_msg_seq_num();
        let next = self.state.next_target_msg_seq_num();
        let enable = self.config.enable_last_msg_seq_num_processed && next >= 1;
        let mut message = message;
        let hd = message.header();
        let hm = hd.map();
        assert(hd.map_of().wf());
        let ghost h0 = message@.header.fields;
        assert(hm@.fields == h0);
        {
            let h = message.header_mut();
            let fm = h.map_mut();
            initialize_header(fm, &self.session_id, 0, n, next, enable, sending_time);
            assert forall|t: u32| #[trigger] lookup(fm@.fields, t) == initialized_value(
                h0,
                t,
                self.session_id,
                0,
                n,
                next,
                enable,
                sending_time@,
            ) by {
                assert(fm.field_value(t) == lookup(fm@.fields, t));
            }
        }
        let ghost p = message@;
        assert(forall|t: u32| #[trigger] lookup(p.header.fields, t) == initialized_value(
            h0, t, self.session_id, 0, n, next, enable, sending_time@));
        let t = msg_type.as_str();
        let admin = str_eq(t, "0") || str_eq(t, "A") || str_eq(t, "1") || str_eq(t, "2") || str_eq(t, "3") || str_eq(t, "4")
            || str_eq(t, "5");
        let ghost before = self.app_calls@;
        let mut to_send = if admin {
            let copy = message.duplicate();
            match self.application.to_admin(message, &self.session_id) {
                Ok(m2) => {
                    proof {
                        self.app_calls@ = before.push(AppCall::ToAdmin(p, None));
                    }
                    m2
                },
                Err(ApplicationError::DoNotSend) => {
                    proof {
                        self.app_calls@ = before.push(AppCall::ToAdmin(p, Some(ApplicationError::DoNotSend)));
                    }
                    copy
                },
                Err(e) => {
                    proof {
                        self.app_calls@ = before.push(AppCall::ToAdmin(p, Some(e)));
                        assert(self.app_calls@.drop_last() =~= before);
                    }
                    return Err(HandleError::ApplicationError(e));
                },
            }
        } else {
            match self.application.to_app(message, &self.session_id) {
                Ok(m2) => {
                    proof {
                        self.app_calls@ = before.push(AppCall::ToApp(p, None));
                    }
                    m2
                },
                Err(ApplicationError::DoNotSend) => {
                    proof {
                        self.app_calls@ = before.push(AppCall::ToApp(p, Some(ApplicationError::DoNotSend)));
                        assert(self.app_calls@.drop_last() =~= before);
                    }
                    return Ok(None);
                },
                Err(e) => {
                    proof {
                        self.app_calls@ = before.push(AppCall::ToApp(p, Some(e)));
                        assert(self.app_calls@.drop_last() =~= before);
                    }
                    return Err(HandleError::ApplicationError(e));
                },
            }
        };
        proof {
            assert(self.app_calls@.drop_last() =~= before);
        }
        let text = to_send.to_string();
        if self.config.persist_messages {
            self.state.set(n, text.as_str());
        }
        self.state.incr_next_sender_msg_seq_num();
        self.state.log_outgoing(text.as_str());
        Ok(Some(text))
    }

    /// The default application version that the session sends.
    pub closed spec fn appl_ver(&self) -> Seq<char> {
        self.sender_default_appl_ver_id@
    }

    /// What sending did to the numbers and the store of `old`, giving `r`:
    /// a message sent took the next sequence number and is kept under it
    /// where the session keeps messages; otherwise nothing moved.
    pub open spec fn sent_effect(&self, old: &Session, r: Result<Option<String>, HandleError>) -> bool {
        let n = old.st().next_sender();
        &&& self.st().next_target() == old.st().next_target()
        &&& self.st().queued() == old.st().queued()
        &&& match r {
            Ok(Some(text)) => {
                &&& self.st().next_sender() == n + 1
                &&& self.st().stored() == if old.cfg().persist_messages {
                    old.st().stored().insert(n, text@)
                } else {
                    old.st().stored()
                }
            },
            _ => {
                &&& self.st().next_sender() == n
                &&& self.st().stored() == old.st().stored()
            },
        }
    }

    /// Sends a session message of type `msg_type` with the body fields
    /// `fields`, made by the message factory; a factory that makes no such
    /// message gives its error, and then nothing is sent.
    fn send_typed(&mut self, msg_type: &str, fields: &Vec<(Tag, String)>, sending_time: &str) -> (r: Result<
        Option<String>,
        HandleError,
    >)
        requires
            old(self).wf(),
            old(self).st().next_sender() < u32::MAX,
            admin_msg_type(msg_type@),
        ensures
            final(self).same_frame(&*old(self)),
            final(self).outbox() == old(self).outbox(),
            final(self).st()@ == old(self).st()@,
            final(self).sent_effect(&*old(self), r),
            r matches Err(HandleError::MessageFactoryError(_)) ==> final(self).app_calls() == old(self).app_calls(),
            !(r matches Err(HandleError::MessageFactoryError(_))) ==> {
                let call = final(self).app_calls().last();
                let p = call_message(call);
                let fs = fields_view(fields@);
                &&& final(self).app_calls().drop_last() == old(self).app_calls()
                &&& call is ToAdmin
                &&& lookup(p.header.fields, 35) == Some(msg_type@)
                &&& forall|i: int| 0 <= i < fs.len() ==> lookup(p.body.fields, #[trigger] fs[i].0) == after_puts(None, fs, fs[i].0)
                &&& r matches Err(e) ==> e == HandleError::ApplicationError(call_outcome(call)->Some_0)
            },
    {
        let mut message = match self.msg_factory.create(self.session_id.begin_string.as_str(), msg_type) {
            Err(e) => {
                return Err(HandleError::MessageFactoryError(e));
            },
            Ok(m) => m,
        };
        let hd = message.header();
        assert(hd.map_of().wf());
        {
            let h = message.header_mut();
            let fm = h.map_mut();
            fm.set_field(35, msg_type);
            assert(lookup(fm@.fields, 35) == Some(msg_type@)) by {
                assert(fm.field_value(35) == lookup(fm@.fields, 35));
            }
        }
        assert(lookup(message@.header.fields, 35) == Some(msg_type@));
        let ghost b0 = message@.body;
        let bd = message.body();
        assert(bd.wf());
        assert(bd@ == b0);
        let ghost fs = fields_view(fields@);
        {
            let bm = message.body_mut();
            put_fields(bm, fields);
            assert forall|t: u32| #[trigger] lookup(bm@.fields, t) == after_puts(lookup(b0.fields, t), fs, t) by {
                assert(bm.field_value(t) == lookup(bm@.fields, t));
            }
        }
        let ghost body = message@.body;
        assert forall|i: int| 0 <= i < fs.len() implies lookup(body.fields, #[trigger] fs[i].0) == after_puts(None, fs, fs[i].0) by {
            lemma_after_puts_set(lookup(b0.fields, fs[i].0), None, fs, i);
        }
        let ghost m = message@;
        let r = self.send_raw(message, sending_time);
        proof {
            let call = self.app_calls().last();
            assert(call_message(call).body == m.body);
            assert(forall|t: u32| #[trigger] lookup(call_message(call).header.fields, t) == initialized_value(
                m.header.fields, t, old(self).id(), 0, old(self).st().next_sender(), old(self).st().next_target(),
                old(self).cfg().enable_last_msg_seq_num_processed && old(self).st().next_target() >= 1, sending_time@));
            assert(lookup(call_message(call).header.fields, 35) == initialized_value(
                m.header.fields, 35, old(self).id(), 0, old(self).st().next_sender(), old(self).st().next_target(),
                old(self).cfg().enable_last_msg_seq_num_processed && old(self).st().next_target() >= 1, sending_time@));
        }
        r
    }

    /// Sends what `action` asks for, at `sending_time`: a heartbeat (with
    /// the TestReqID it answers), a logout (with its text; the session then
    /// counts its logout as sent where it went), a resend request, a reject
    /// (where its plan sends it) or the answer to a logon, each made by the
    /// message factory and sent with `send_raw`. A disconnection, and a
    /// reject that is not sent, send nothing.
    #[verifier::spinoff_prover]
    #[verifier::rlimit(60)]
    pub fn send_action(&mut self, action: SessionAction, sending_time: &str) -> (r: Result<Option<String>, HandleError>)
        requires
            old(self).wf(),
            old(self).st().next_sender() < u32::MAX,
        ensures
            final(self).same_frame(&*old(self)),
            final(self).outbox() == old(self).outbox(),
            final(self).sent_effect(&*old(self), r),
            ({
                let a = action_view(action);
                match action_message(a, old(self).st()@.heartbeat_int, old(self).id().is_fixt, old(self).appl_ver()) {
                    None => r == Ok::<Option<String>, HandleError>(None) && final(self).unchanged_from(&*old(self)),
                    Some((t, fs)) => {
                        &&& (a is Logout ==> final(self).st()@ == (SessionStateModel {
                            sent_logout: r matches Ok(Some(_)),
                            ..old(self).st()@
                        }))
                        &&& (!(a is Logout) ==> final(self).st()@ == old(self).st()@)
                        &&& r matches Err(HandleError::MessageFactoryError(_)) ==> final(self).app_calls()
                            == old(self).app_calls()
                        &&& !(r matches Err(HandleError::MessageFactoryError(_))) ==> {
                            let call = final(self).app_calls().last();
                            let p = call_message(call);
                            &&& final(self).app_calls().drop_last() == old(self).app_calls()
                            &&& call is ToAdmin
                            &&& lookup(p.header.fields, 35) == Some(t)
                            &&& forall|i: int|
                                0 <= i < fs.len() ==> lookup(p.body.fields, #[trigger] fs[i].0) == after_puts(
                                    None,
                                    fs,
                                    fs[i].0,
                                )
                            &&& r matches Err(e) ==> e == HandleError::ApplicationError(call_outcome(call)->Some_0)
                        }
                    },
                }
            }),
    {
        let mut fields: Vec<(Tag, String)> = Vec::new();
        match action {
            SessionAction::Disconnect { .. } => {
                return Ok(None);
            },
            SessionAction::Reject(plan) => {
                if !plan.send {
                    return Ok(None);
                }
                let r = self.send_typed("3", &plan.fields, sending_time);
                proof {
                    reveal_strlit("3");
                }
                r
            },
            SessionAction::Logout { text } => {
                if let Some(v) = text {
                    if crate::text::str_chars(v.as_str()).len() > 0 {
                        fields.push((tags::Text, v));
                    }
                }
                proof {
                    reveal_strlit("5");
                    assert(fields_view(fields@) =~= action_message(action_view(action), 0, false, Seq::empty())->Some_0.1);
                }
                let r = self.send_typed("5", &fields, sending_time);
                let sent = match &r {
                    Ok(Some(_)) => true,
                    _ => false,
                };
                self.state.set_sent_logout(sent);
                r
            },
            SessionAction::ResendRequest { begin, end } => {
                fields.push((tags::BeginSeqNo, decimal_string(begin as u64)));
                fields.push((tags::EndSeqNo, decimal_string(end as u64)));
                proof {
                    reveal_strlit("2");
                    assert(fields_view(fields@) =~= action_message(action_view(action), 0, false, Seq::empty())->Some_0.1);
                }
                self.send_typed("2", &fields, sending_time)
            },
            SessionAction::Heartbeat { test_req_id } => {
                if let Some(v) = test_req_id {
                    fields.push((tags::TestReqID, v));
                }
                proof {
                    reveal_strlit("0");
                    assert(fields_view(fields@) =~= action_message(action_view(action), 0, false, Seq::empty())->Some_0.1);
                }
                self.send_typed("0", &fields, sending_time)
            },
            SessionAction::LogonResponse => {
                let logon = generate_logon(
                    self.state.heartbeat_int(),
                    self.session_id.is_fixt,
                    self.sender_default_appl_ver_id.as_str(),
                    false,
                );
                let mut i: usize = 0;
                while i < logon.len()
                    invariant
                        0 <= i <= logon.len(),
                        fields_view(fields@) == logon@.map_values(|f: FieldBase| f@).take(i as int),
                    decreases logon.len() - i,
                {
                    fields.push((logon[i].tag(), logon[i].value().clone()));
                    proof {
                        assert(logon@.map_values(|f: FieldBase| f@).take(i + 1) =~= logon@.map_values(|f: FieldBase| f@).take(
                            i as int,
                        ).push(logon@[i as int]@));
                        assert(fields_view(fields@) =~= fields_view(fields@.drop_last()).push((fields@.last().0, fields@.last().1@)));
                    }
                    i = i + 1;
                }
                proof {
                    reveal_strlit("A");
                    assert(logon@.map_values(|f: FieldBase| f@).take(logon.len() as int) =~= logon@.map_values(|f: FieldBase| f@));
                }
                self.send_typed("A", &fields, sending_time)
            },
        }
    }

    /// Hands over what the session has to send, which it forgets.
    pub fn take_outbox(&mut self) -> (r: Vec<SessionAction>)
        ensures
            r@.map_values(|a: SessionAction| action_view(a)) == old(self).outbox(),
            final(self).outbox().len() == 0,
            final(self).st() == old(self).st(),
            final(self).app_calls() == old(self).app_calls(),
            final(self).wf() == old(self).wf(),
    {
        let mut out: Vec<SessionAction> = Vec::new();
        std::mem::swap(&mut out, &mut self.outbox);
        out
    }
}

} // verus!
