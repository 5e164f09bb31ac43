//! The decisions a session takes on the messages it receives and sends:
//! what a reject holds, whether a message is verified, when to ask for a
//! resend and when to reset. The session feeds them plain values read from
//! its state and messages, and carries out what they decide.
use vstd::prelude::*;

use crate::field_map::{lookup, FieldBase, FieldMap, Tag};
use crate::session::session_id::SessionId;
use crate::session::session_schedule::{session_time, utc_time_ok, SessionSchedule};
use crate::session::reset_range::ResetRange;
use crate::session::session_schedule::UtcTime;
use crate::tags;
use crate::text::{concat_strs, decimal, decimal_string, str_chars, str_eq};
use crate::fields::{flag_text, DefaultApplVerID, EncryptMethod, HeartBtInt, ResetSeqNumFlag};

verus! {

/// The versions of FIX that the session layer compares with.
pub const FIX41: &'static str = "FIX.4.1";

pub const FIX42: &'static str = "FIX.4.2";

pub const FIX43: &'static str = "FIX.4.3";

/// Whether `a` comes before `b` in the order of their characters' codes,
/// a prefix first (the order of `str`).
pub open spec fn text_lt(a: Seq<char>, b: Seq<char>) -> bool
    decreases a.len(),
{
    if a.len() == 0 {
        b.len() > 0
    } else if b.len() == 0 {
        false
    } else if a[0] != b[0] {
        a[0] < b[0]
    } else {
        text_lt(a.drop_first(), b.drop_first())
    }
}

/// Whether `a` comes before `b` or is `b`.
pub open spec fn text_le(a: Seq<char>, b: Seq<char>) -> bool {
    a == b || text_lt(a, b)
}

proof fn lemma_text_lt_irreflexive(a: Seq<char>)
    ensures
        !text_lt(a, a),
    decreases a.len(),
{
    if a.len() > 0 {
        lemma_text_lt_irreflexive(a.drop_first());
    }
}

proof fn lemma_text_lt_asymmetric(a: Seq<char>, b: Seq<char>)
    ensures
        text_lt(a, b) ==> !text_lt(b, a),
    decreases a.len(),
{
    if a.len() > 0 && b.len() > 0 {
        lemma_text_lt_asymmetric(a.drop_first(), b.drop_first());
    }
}

proof fn lemma_text_lt_transitive(a: Seq<char>, b: Seq<char>, c: Seq<char>)
    ensures
        text_lt(a, b) && text_lt(b, c) ==> text_lt(a, c),
    decreases a.len(),
{
    if a.len() > 0 && b.len() > 0 && c.len() > 0 {
        lemma_text_lt_transitive(a.drop_first(), b.drop_first(), c.drop_first());
    }
}

proof fn lemma_text_lt_total(a: Seq<char>, b: Seq<char>)
    ensures
        a != b ==> text_lt(a, b) || text_lt(b, a),
    decreases a.len(),
{
    if a.len() > 0 && b.len() > 0 {
        lemma_text_lt_total(a.drop_first(), b.drop_first());
        if a[0] == b[0] && a.drop_first() == b.drop_first() {
            assert(a =~= b) by {
                assert(a =~= seq![a[0]] + a.drop_first());
                assert(b =~= seq![b[0]] + b.drop_first());
            }
        }
    } else if a.len() == 0 && b.len() == 0 {
        assert(a =~= b);
    }
}

/// The order of texts is strict and total: no text comes before itself,
/// of two texts at most one comes before the other, it is transitive, and
/// of two different texts one comes first.
pub proof fn law_text_order(a: Seq<char>, b: Seq<char>, c: Seq<char>)
    ensures
        !text_lt(a, a),
        text_lt(a, b) ==> !text_lt(b, a),
        text_lt(a, b) && text_lt(b, c) ==> text_lt(a, c),
        a != b ==> text_lt(a, b) || text_lt(b, a),
{
    lemma_text_lt_irreflexive(a);
    lemma_text_lt_asymmetric(a, b);
    lemma_text_lt_transitive(a, b, c);
    lemma_text_lt_total(a, b);
}

/// Whether `a` comes before `b`, as `str` orders them.
pub fn str_lt(a: &str, b: &str) -> (r: bool)
    ensures
        r == text_lt(a@, b@),
{
    let x = str_chars(a);
    let y = str_chars(b);
    let mut i: usize = 0;
    assert(x@.subrange(0, x@.len() as int) =~= x@);
    assert(y@.subrange(0, y@.len() as int) =~= y@);
    while i < x.len() && i < y.len() && x[i] == y[i]
        invariant
            i <= x@.len(),
            i <= y@.len(),
            x@.subrange(0, i as int) == y@.subrange(0, i as int),
            text_lt(x@, y@) == text_lt(x@.subrange(i as int, x@.len() as int), y@.subrange(i as int, y@.len() as int)),
        decreases x@.len() - i,
    {
        proof {
            let xs = x@.subrange(i as int, x@.len() as int);
            let ys = y@.subrange(i as int, y@.len() as int);
            assert(xs.drop_first() =~= x@.subrange(i + 1, x@.len() as int));
            assert(ys.drop_first() =~= y@.subrange(i + 1, y@.len() as int));
            assert(x@.subrange(0, i + 1) =~= x@.subrange(0, i as int).push(x@[i as int]));
            assert(y@.subrange(0, i + 1) =~= y@.subrange(0, i as int).push(y@[i as int]));
        }
        i = i + 1;
    }
    proof {
        assert(x@.subrange(0, x@.len() as int) =~= x@);
        assert(y@.subrange(0, y@.len() as int) =~= y@);
    }
    if i == x.len() {
        i < y.len()
    } else if i == y.len() {
        false
    } else {
        x[i] < y[i]
    }
}

/// Whether `a` comes before `b` or is `b`, as `str` orders them.
pub fn str_le(a: &str, b: &str) -> (r: bool)
    ensures
        r == text_le(a@, b@),
{
    str_eq(a, b) || str_lt(a, b)
}

/// The fields that say why a message was refused, with the field at fault:
/// from FIX.4.2 on, its tag and the reason; before, the reason followed by
/// the tag in brackets where `include_field` is set, else the reason.
pub open spec fn session_reason_fields(begin: Seq<char>, field: u32, reason: Seq<char>, include_field: bool) -> Seq<
    (u32, Seq<char>),
> {
    if text_le(FIX42@, begin) {
        seq![(tags::RefTagID, decimal(field as nat)), (tags::Text, reason)]
    } else if include_field {
        seq![(tags::Text, reason + " ("@ + decimal(field as nat) + ")"@)]
    } else {
        seq![(tags::Text, reason)]
    }
}

/// The fields that a reject of a message sets, in order: the message's
/// MsgSeqNum where it has one; from FIX.4.2 on its MsgType and the reason
/// (the reason in FIX.4.2 only where it comes before `Invalid MSG Type`);
/// then the text of the reason, with the field at fault where there is one
/// or the reason is `Invalid Tag`.
pub open spec fn reject_fields(begin: Seq<char>, msg_type: Seq<char>, msg_seq_num: Option<u32>, reason: Seq<char>, field: u32) -> Seq<
    (u32, Seq<char>),
> {
    let seq_fields = match msg_seq_num {
        Some(n) => seq![(tags::MsgSeqNum, decimal(n as nat))],
        None => Seq::empty(),
    };
    let ref_fields = if text_le(FIX42@, begin) {
        (if msg_type.len() > 0 {
            seq![(tags::RefMsgType, msg_type)]
        } else {
            Seq::empty()
        }) + (if (begin == FIX42@ && text_le(reason, "Invalid MSG Type"@)) || text_lt(FIX42@, begin) {
            seq![(tags::SessionRejectReason, reason)]
        } else {
            Seq::empty()
        })
    } else {
        Seq::empty()
    };
    let reason_fields = if field != 0 || reason == "Invalid Tag"@ {
        if reason == "Invalid MSG Type"@ {
            if text_le(FIX43@, begin) {
                seq![(tags::Text, reason)]
            } else {
                session_reason_fields(begin, 0, reason, false)
            }
        } else {
            session_reason_fields(begin, field, reason, true)
        }
    } else {
        seq![(tags::Text, reason)]
    };
    seq_fields + ref_fields + reason_fields
}

/// Every reject says why: the last field it sets is the text of its reason.
pub proof fn law_reject_says_why(begin: Seq<char>, msg_type: Seq<char>, msg_seq_num: Option<u32>, reason: Seq<char>, field: u32)
    ensures
        ({
            let fs = reject_fields(begin, msg_type, msg_seq_num, reason, field);
            fs.len() > 0 && fs.last().0 == tags::Text
        }),
{
}

/// What a reject does: the fields it sets, whether the next expected
/// sequence number of the counterparty moves on, and whether it is sent
/// (a reject is refused before the counterparty has logged on).
pub struct RejectPlan {
    pub fields: Vec<(Tag, String)>,
    pub incr_next_target: bool,
    pub send: bool,
}

pub open spec fn fields_view(v: Seq<(Tag, String)>) -> Seq<(u32, Seq<char>)> {
    v.map_values(|p: (Tag, String)| (p.0, p.1@))
}

fn push_field(v: &mut Vec<(Tag, String)>, tag: Tag, value: String)
    ensures
        fields_view(final(v)@) == fields_view(old(v)@).push((tag, value@)),
{
    v.push((tag, value));
    assert(fields_view(v@) =~= fields_view(old(v)@).push((tag, value@)));
}

fn session_reason(v: &mut Vec<(Tag, String)>, begin_string: &str, field: Tag, reason: &str, include_field: bool)
    ensures
        fields_view(final(v)@) == fields_view(old(v)@) + session_reason_fields(
            begin_string@,
            field,
            reason@,
            include_field,
        ),
{
    let ghost before = fields_view(v@);
    if str_le(FIX42, begin_string) {
        push_field(v, tags::RefTagID, decimal_string(field as u64));
        push_field(v, tags::Text, reason.to_owned());
    } else if include_field {
        let a = concat_strs(reason, " (");
        let b = concat_strs(a.as_str(), decimal_string(field as u64).as_str());
        push_field(v, tags::Text, concat_strs(b.as_str(), ")"));
    } else {
        push_field(v, tags::Text, reason.to_owned());
    }
    assert(fields_view(v@) =~= before + session_reason_fields(begin_string@, field, reason@, include_field));
}

/// What rejecting a message does in a session of the version
/// `begin_string`: `msg_type` and `msg_seq_num` are the message's MsgType
/// and MsgSeqNum where it has them, `reason` the reason of the reject and
/// `field` the field at fault. The counterparty's next expected sequence
/// number moves on where the message is neither a logon nor a sequence
/// reset and carries that number (a message without one counts as 0).
pub fn generate_reject(
    begin_string: &str,
    msg_type: Option<&str>,
    msg_seq_num: Option<u32>,
    reason: &str,
    field: Option<Tag>,
    next_target_msg_seq_num: u32,
    received_logon: bool,
) -> (r: RejectPlan)
    ensures
        fields_view(r.fields@) == reject_fields(
            begin_string@,
            match msg_type {
                Some(t) => t@,
                None => Seq::empty(),
            },
            msg_seq_num,
            reason@,
            match field {
                Some(f) => f,
                None => 0,
            },
        ),
        r.incr_next_target == ({
            let t = match msg_type {
                Some(t) => t@,
                None => Seq::empty(),
            };
            let n = match msg_seq_num {
                Some(n) => n,
                None => 0,
            };
            t != "A"@ && t != "4"@ && n == next_target_msg_seq_num
        }),
        r.send == received_logon,
{
    let ghost mt = match msg_type {
        Some(t) => t@,
        None => Seq::<char>::empty(),
    };
    let ghost fd = match field {
        Some(f) => f,
        None => 0,
    };
    proof {
        reveal_strlit("");
    }
    let field: Tag = match field {
        Some(f) => f,
        None => 0,
    };
    let msg_type: &str = match msg_type {
        Some(t) => t,
        None => "",
    };
    assert(msg_type@ == mt);
    let mut fields: Vec<(Tag, String)> = Vec::new();
    let seq_num: u32 = match msg_seq_num {
        Some(n) => {
            push_field(&mut fields, tags::MsgSeqNum, decimal_string(n as u64));
            n
        },
        None => 0,
    };
    let ghost after_seq = fields_view(fields@);
    if str_le(FIX42, begin_string) {
        let ghost s0 = fields_view(fields@);
        if str_chars(msg_type).len() > 0 {
            push_field(&mut fields, tags::RefMsgType, msg_type.to_owned());
        }
        let ghost s1 = fields_view(fields@);
        assert(s1 =~= s0 + (if mt.len() > 0 {
            seq![(tags::RefMsgType, mt)]
        } else {
            Seq::<(u32, Seq<char>)>::empty()
        }));
        if (str_eq(FIX42, begin_string) && str_le(reason, "Invalid MSG Type")) || str_lt(FIX42, begin_string) {
            push_field(&mut fields, tags::SessionRejectReason, reason.to_owned());
        }
        assert(fields_view(fields@) =~= s1 + (if (begin_string@ == FIX42@ && text_le(reason@, "Invalid MSG Type"@))
            || text_lt(FIX42@, begin_string@) {
            seq![(tags::SessionRejectReason, reason@)]
        } else {
            Seq::<(u32, Seq<char>)>::empty()
        }));
    }
    let ghost after_ref = fields_view(fields@);
    proof {
        let ref_fields = if text_le(FIX42@, begin_string@) {
            (if mt.len() > 0 {
                seq![(tags::RefMsgType, mt)]
            } else {
                Seq::<(u32, Seq<char>)>::empty()
            }) + (if (begin_string@ == FIX42@ && text_le(reason@, "Invalid MSG Type"@)) || text_lt(FIX42@, begin_string@) {
                seq![(tags::SessionRejectReason, reason@)]
            } else {
                Seq::<(u32, Seq<char>)>::empty()
            })
        } else {
            Seq::<(u32, Seq<char>)>::empty()
        };
        assert(after_ref =~= after_seq + ref_fields);
    }
    let incr_next_target = !str_eq(msg_type, "A") && !str_eq(msg_type, "4") && seq_num == next_target_msg_seq_num;
    if field != 0 || str_eq(reason, "Invalid Tag") {
        if str_eq(reason, "Invalid MSG Type") {
            if str_le(FIX43, begin_string) {
                push_field(&mut fields, tags::Text, reason.to_owned());
            } else {
                session_reason(&mut fields, begin_string, 0, reason, false);
            }
        } else {
            session_reason(&mut fields, begin_string, field, reason, true);
        }
    } else {
        push_field(&mut fields, tags::Text, reason.to_owned());
    }
    proof {
        let msg_seq_fields = match msg_seq_num {
            Some(n) => seq![(tags::MsgSeqNum, decimal(n as nat))],
            None => Seq::<(u32, Seq<char>)>::empty(),
        };
        assert(after_seq =~= msg_seq_fields);
        let reason_fields = if fd != 0 || reason@ == "Invalid Tag"@ {
            if reason@ == "Invalid MSG Type"@ {
                if text_le(FIX43@, begin_string@) {
                    seq![(tags::Text, reason@)]
                } else {
                    session_reason_fields(begin_string@, 0, reason@, false)
                }
            } else {
                session_reason_fields(begin_string@, fd, reason@, true)
            }
        } else {
            seq![(tags::Text, reason@)]
        };
        assert(fields_view(fields@) =~= after_ref + reason_fields);
        assert(fields_view(fields@) =~= reject_fields(begin_string@, mt, msg_seq_num, reason@, fd));
    }
    RejectPlan { fields, incr_next_target, send: received_logon }
}

/// The range of a resend request for the messages before `msg_seq_num`:
/// from the next expected sequence number to the one before `msg_seq_num`,
/// asked for at most `max_messages` at a time; where there is no such
/// limit, the chunk ends at 0 from FIX.4.2 on and at 99999 before.
pub open spec fn resend_range(begin: Seq<char>, next_target: u32, msg_seq_num: u32, max_messages: u32) -> (u32, u32, u32) {
    let end_range = (msg_seq_num - 1) as u32;
    let end_chunk = if max_messages > 0 {
        if end_range <= next_target + max_messages - 1 {
            end_range
        } else {
            (next_target + max_messages - 1) as u32
        }
    } else if text_le(FIX42@, begin) {
        0
    } else {
        99999
    };
    (next_target, end_range, end_chunk)
}

/// The first and last sequence numbers that a resend request asks for, and
/// the end of its first chunk.
pub fn generate_resend_request(begin_string: &str, next_target: u32, msg_seq_num: u32, max_messages: u32) -> (r: (
    u32,
    u32,
    u32,
))
    requires
        msg_seq_num >= 1,
        max_messages > 0 ==> next_target + max_messages - 1 <= u32::MAX,
    ensures
        r == resend_range(begin_string@, next_target, msg_seq_num, max_messages),
{
    let end_range = msg_seq_num - 1;
    let end_chunk = if max_messages > 0 {
        let last = next_target + (max_messages - 1);
        if end_range <= last {
            end_range
        } else {
            last
        }
    } else if str_le(FIX42, begin_string) {
        0
    } else {
        99999
    };
    (next_target, end_range, end_chunk)
}

/// Whether a logon should ask the counterparty to reset the sequence
/// numbers: reset on logon from FIX.4.1 on, or reset on logout, or reset on
/// disconnect while both next sequence numbers are 1.
pub open spec fn send_reset(
    begin: Seq<char>,
    reset_on_logon: bool,
    reset_on_logout: bool,
    reset_on_disconnect: bool,
    next_sender: u32,
    next_target: u32,
) -> bool {
    (text_le(FIX41@, begin) && reset_on_logon) || reset_on_logout || (reset_on_disconnect && next_sender == 1
        && next_target == 1)
}

/// Whether a logon should ask for a reset of the sequence numbers.
pub fn should_send_reset(
    begin_string: &str,
    reset_on_logon: bool,
    reset_on_logout: bool,
    reset_on_disconnect: bool,
    next_sender: u32,
    next_target: u32,
) -> (r: bool)
    ensures
        r == send_reset(begin_string@, reset_on_logon, reset_on_logout, reset_on_disconnect, next_sender, next_target),
{
    (str_le(FIX41, begin_string) && reset_on_logon) || reset_on_logout || (reset_on_disconnect && next_sender == 1
        && next_target == 1)
}

/// Whether a message's comp ids are those of the session: always where comp
/// ids are not checked.
pub fn is_correct_comp_id(
    check_comp_id: bool,
    session_sender_comp_id: &str,
    session_target_comp_id: &str,
    sender_comp_id: &str,
    target_comp_id: &str,
) -> (r: bool)
    ensures
        r == (!check_comp_id || (session_sender_comp_id@ == sender_comp_id@ && session_target_comp_id@
            == target_comp_id@)),
{
    !check_comp_id || (str_eq(session_sender_comp_id, sender_comp_id) && str_eq(
        session_target_comp_id,
        target_comp_id,
    ))
}

/// The whole seconds from `b` to `a`, rounded toward zero.
pub open spec fn seconds_between(a: UtcTime, b: UtcTime) -> int {
    let d = (a.secs - b.secs) * 1_000_000_000 + (a.nanos - b.nanos);
    if d >= 0 {
        d / 1_000_000_000
    } else {
        -((-d) / 1_000_000_000)
    }
}

/// Whether a message sent at `sending_time` arrived in time at `now`: at
/// most `max_latency` whole seconds apart, either way; always where latency
/// is not checked.
pub open spec fn good_time(check_latency: bool, now: UtcTime, sending_time: UtcTime, max_latency: u32) -> bool {
    !check_latency || {
        let s = seconds_between(now, sending_time);
        -(max_latency as int) <= s <= max_latency
    }
}

/// The whole seconds from `b` to `a`, rounded toward zero.
fn whole_seconds_between(a: UtcTime, b: UtcTime) -> (r: i128)
    requires
        a.nanos < 1_000_000_000,
        b.nanos < 1_000_000_000,
    ensures
        r == seconds_between(a, b),
{
    let d: i128 = (a.secs as i128 - b.secs as i128) * 1_000_000_000 + (a.nanos as i128 - b.nanos as i128);
    if d >= 0 {
        d / 1_000_000_000
    } else {
        0 - ((0 - d) / 1_000_000_000)
    }
}

/// Whether a message sent at `sending_time` arrived in time at `now`.
pub fn is_good_time(check_latency: bool, now: UtcTime, sending_time: UtcTime, max_latency: u32) -> (r: bool)
    requires
        now.nanos < 1_000_000_000,
        sending_time.nanos < 1_000_000_000,
    ensures
        r == good_time(check_latency, now, sending_time, max_latency),
{
    if !check_latency {
        return true;
    }
    let s = whole_seconds_between(now, sending_time);
    -(max_latency as i128) <= s && s <= max_latency as i128
}

/// What a session does with a sequence reset to `new_seq_no`.
#[derive(Debug, Clone, Copy, PartialEq, Eq, Structural)]
pub enum SequenceResetAction {
    /// The next expected sequence number becomes `new_seq_no`.
    SetNextTarget(u32),
    /// The message is rejected: the value is incorrect.
    Reject,
    /// Nothing changes.
    Ignore,
}

/// A sequence reset to a higher number moves the next expected sequence
/// number there; one to a lower number is rejected; one to the same number
/// changes nothing.
pub fn next_sequence_reset(new_seq_no: u32, next_target: u32) -> (r: SequenceResetAction)
    ensures
        new_seq_no > next_target ==> r == SequenceResetAction::SetNextTarget(new_seq_no),
        new_seq_no < next_target ==> r == SequenceResetAction::Reject,
        new_seq_no == next_target ==> r == SequenceResetAction::Ignore,
{
    if new_seq_no > next_target {
        SequenceResetAction::SetNextTarget(new_seq_no)
    } else if new_seq_no < next_target {
        SequenceResetAction::Reject
    } else {
        SequenceResetAction::Ignore
    }
}

/// Whether a message numbered `msg_seq_num` above the expected one asks for
/// a resend request: not where one was sent that covers it, unless redundant
/// requests are sent.
pub fn needs_resend_request(
    resend_range: Option<ResetRange>,
    send_redundant_resend_requests: bool,
    msg_seq_num: u32,
) -> (r: bool)
    ensures
        r == !(resend_range matches Some(range) && !send_redundant_resend_requests && msg_seq_num
            >= range.begin_seq_num),
{
    match resend_range {
        Some(range) => send_redundant_resend_requests || msg_seq_num < range.begin_seq_num,
        None => true,
    }
}

/// What receiving a message numbered `msg_seq_num` does to a resend
/// request under way.
#[derive(Debug, Clone, Copy, PartialEq, Eq, Structural)]
pub enum ResendProgress {
    /// The request is satisfied: the range is cleared.
    Satisfied,
    /// The chunk asked for is satisfied: the next one, from `begin` to
    /// `end`, is asked for, and becomes the chunk.
    NextChunk { begin: u32, end: u32 },
    /// Nothing changes.
    Waiting,
}

/// The progress of the resend request `range` when a message numbered
/// `msg_seq_num` arrives: satisfied at its last sequence number or beyond;
/// else, at the end of its chunk or beyond, the next chunk runs from the one
/// after the chunk's end to at most `max_messages` further, within the
/// range.
pub open spec fn resend_progress(range: ResetRange, msg_seq_num: u32, max_messages: u32) -> ResendProgress {
    if msg_seq_num >= range.end_seq_num {
        ResendProgress::Satisfied
    } else {
        match range.chunk_end_seq_num {
            Some(chunk) => if msg_seq_num >= chunk {
                ResendProgress::NextChunk {
                    begin: (chunk + 1) as u32,
                    end: if range.end_seq_num <= chunk + max_messages {
                        range.end_seq_num
                    } else {
                        (chunk + max_messages) as u32
                    },
                }
            } else {
                ResendProgress::Waiting
            },
            None => ResendProgress::Waiting,
        }
    }
}

/// When a message numbered `msg_seq_num` arrives during the resend request
/// `range`: at or beyond the end of the range, the request is satisfied;
/// else, at or beyond the end of the chunk asked for, the next chunk starts
/// right after that chunk and ends at the end of the range or
/// `max_messages` further, whichever comes first, so never past the range;
/// else nothing changes.
pub proof fn law_resend_progress(range: ResetRange, msg_seq_num: u32, max_messages: u32)
    ensures
        match resend_progress(range, msg_seq_num, max_messages) {
            ResendProgress::Satisfied => msg_seq_num >= range.end_seq_num,
            ResendProgress::NextChunk { begin, end } => {
                &&& msg_seq_num < range.end_seq_num
                &&& range.chunk_end_seq_num is Some
                &&& msg_seq_num >= range.chunk_end_seq_num->Some_0
                &&& begin == range.chunk_end_seq_num->Some_0 + 1
                &&& end <= range.end_seq_num
                &&& end <= range.chunk_end_seq_num->Some_0 + max_messages
                &&& (end == range.end_seq_num || end == range.chunk_end_seq_num->Some_0 + max_messages)
            },
            ResendProgress::Waiting => {
                &&& msg_seq_num < range.end_seq_num
                &&& (range.chunk_end_seq_num is Some ==> msg_seq_num < range.chunk_end_seq_num->Some_0)
            },
        },
{
}

/// The progress of a resend request when a message arrives.
pub fn resend_progress_of(range: ResetRange, msg_seq_num: u32, max_messages: u32) -> (r: ResendProgress)
    ensures
        r == resend_progress(range, msg_seq_num, max_messages),
{
    if msg_seq_num >= range.end_seq_num {
        ResendProgress::Satisfied
    } else {
        match range.chunk_end_seq_num {
            Some(chunk) => {
                if msg_seq_num >= chunk {
                    let end: u32 = if (range.end_seq_num as u64) <= (chunk as u64) + (max_messages as u64) {
                        range.end_seq_num
                    } else {
                        chunk + max_messages
                    };
                    ResendProgress::NextChunk { begin: chunk + 1, end }
                } else {
                    ResendProgress::Waiting
                }
            },
            None => ResendProgress::Waiting,
        }
    }
}

/// What verifying a received message decides.
#[derive(Debug, Clone, Copy, PartialEq, Eq, Structural)]
pub enum VerifyOutcome {
    /// The comp ids are not the session's: reject, then log out.
    CompIdProblem,
    /// The sequence number is above the expected one.
    TargetTooHigh(u32),
    /// The sequence number is below the expected one.
    TargetTooLow(u32),
    /// The message came too late or too early: reject, then log out.
    SendingTimeProblem,
    /// The message is passed to the application, as an admin message or not.
    Deliver { admin: bool },
}

/// Whether `t` is the type of an admin message: a heartbeat, test request,
/// resend request, reject, sequence reset, logout or logon.
pub open spec fn admin_msg_type(t: Seq<char>) -> bool {
    t == "0"@ || t == "A"@ || t == "1"@ || t == "2"@ || t == "3"@ || t == "4"@ || t == "5"@
}

/// The outcome of verifying a message, and the progress of the resend
/// request under way where the message's sequence number was checked.
pub open spec fn verify_outcome(
    comp_id_ok: bool,
    check_too_high: bool,
    check_too_low: bool,
    msg_seq_num: u32,
    next_target: u32,
    resend: Option<ResetRange>,
    max_messages: u32,
    time_ok: bool,
    msg_type: Seq<char>,
) -> (VerifyOutcome, Option<ResendProgress>) {
    if !comp_id_ok {
        (VerifyOutcome::CompIdProblem, None)
    } else if check_too_high && msg_seq_num > next_target {
        (VerifyOutcome::TargetTooHigh(msg_seq_num), None)
    } else if check_too_low && msg_seq_num < next_target {
        (VerifyOutcome::TargetTooLow(msg_seq_num), None)
    } else {
        let progress = if check_too_high || check_too_low {
            match resend {
                Some(range) => Some(resend_progress(range, msg_seq_num, max_messages)),
                None => None,
            }
        } else {
            None
        };
        if !time_ok {
            (VerifyOutcome::SendingTimeProblem, progress)
        } else {
            (VerifyOutcome::Deliver { admin: admin_msg_type(msg_type) }, progress)
        }
    }
}

/// What verifying a received message decides: `comp_id_ok` and `time_ok`
/// say whether its comp ids and its sending time are right, `resend` is the
/// resend request under way.
pub fn verify_opt(
    comp_id_ok: bool,
    check_too_high: bool,
    check_too_low: bool,
    msg_seq_num: u32,
    next_target: u32,
    resend: Option<ResetRange>,
    max_messages: u32,
    time_ok: bool,
    msg_type: &str,
) -> (r: (VerifyOutcome, Option<ResendProgress>))
    ensures
        r == verify_outcome(
            comp_id_ok,
            check_too_high,
            check_too_low,
            msg_seq_num,
            next_target,
            resend,
            max_messages,
            time_ok,
            msg_type@,
        ),
{
    if !comp_id_ok {
        return (VerifyOutcome::CompIdProblem, None);
    }
    if check_too_high && msg_seq_num > next_target {
        return (VerifyOutcome::TargetTooHigh(msg_seq_num), None);
    }
    if check_too_low && msg_seq_num < next_target {
        return (VerifyOutcome::TargetTooLow(msg_seq_num), None);
    }
    let progress = if check_too_high || check_too_low {
        match resend {
            Some(range) => Some(resend_progress_of(range, msg_seq_num, max_messages)),
            None => None,
        }
    } else {
        None
    };
    if !time_ok {
        (VerifyOutcome::SendingTimeProblem, progress)
    } else {
        let admin = str_eq(msg_type, "0") || str_eq(msg_type, "A") || str_eq(msg_type, "1") || str_eq(msg_type, "2")
            || str_eq(msg_type, "3") || str_eq(msg_type, "4") || str_eq(msg_type, "5");
        (VerifyOutcome::Deliver { admin }, progress)
    }
}

/// The error of a message numbered below the expected one that is not a
/// possible duplicate.
pub fn too_low_error(next_target: u32, msg_seq_num: u32) -> (r: String)
    ensures
        r@ == "MsgSeqNum too low, expecting "@ + decimal(next_target as nat) + " but received "@ + decimal(
            msg_seq_num as nat,
        ),
{
    let a = concat_strs("MsgSeqNum too low, expecting ", decimal_string(next_target as u64).as_str());
    let b = concat_strs(a.as_str(), " but received ");
    concat_strs(b.as_str(), decimal_string(msg_seq_num as u64).as_str())
}

/// What a session does with a possible duplicate.
#[derive(Debug, Clone, Copy, PartialEq, Eq, Structural)]
pub enum PossDupAction {
    /// Accepted as it is.
    Accept,
    /// Rejected: OrigSendingTime is missing.
    RejectMissingOrigSendingTime,
    /// Rejected, then logged out: OrigSendingTime comes after SendingTime.
    RejectSendingTime,
}

/// A sequence reset needs no OrigSendingTime where it is not required; a
/// possible duplicate without one is rejected, and one whose original
/// sending time comes a whole second or more after its sending time is
/// rejected and the session logs out.
pub open spec fn poss_dup_action(
    is_sequence_reset: bool,
    requires_orig_sending_time: bool,
    orig_sending_time: Option<UtcTime>,
    sending_time: UtcTime,
) -> PossDupAction {
    if is_sequence_reset && !requires_orig_sending_time {
        PossDupAction::Accept
    } else {
        match orig_sending_time {
            None => PossDupAction::RejectMissingOrigSendingTime,
            Some(o) => if seconds_between(o, sending_time) > 0 {
                PossDupAction::RejectSendingTime
            } else {
                PossDupAction::Accept
            },
        }
    }
}

/// What a session does with a possible duplicate.
pub fn do_poss_dup(
    msg_type: &str,
    requires_orig_sending_time: bool,
    orig_sending_time: Option<UtcTime>,
    sending_time: UtcTime,
) -> (r: PossDupAction)
    requires
        orig_sending_time matches Some(o) ==> o.nanos < 1_000_000_000,
        sending_time.nanos < 1_000_000_000,
    ensures
        r == poss_dup_action(msg_type@ == "4"@, requires_orig_sending_time, orig_sending_time, sending_time),
{
    if str_eq(msg_type, "4") && !requires_orig_sending_time {
        return PossDupAction::Accept;
    }
    match orig_sending_time {
        None => PossDupAction::RejectMissingOrigSendingTime,
        Some(o) => {
            if whole_seconds_between(o, sending_time) > 0 {
                PossDupAction::RejectSendingTime
            } else {
                PossDupAction::Accept
            }
        },
    }
}

/// The value of the field `t` of a header that a session has prepared
/// for sending, where the header had the fields `fs`: the session's
/// identity (the sub and location ids where they are not empty), the
/// sequence number `seq_num` (the next one where it is 0), and the sending
/// time. Where the last processed sequence number is asked for and the
/// header has none, the sequence number written is the one before the next
/// expected one.
pub open spec fn initialized_value(
    fs: Seq<(u32, Seq<char>)>,
    t: u32,
    id: SessionId,
    seq_num: u32,
    next_sender: u32,
    next_target: u32,
    enable_last_msg_seq_num_processed: bool,
    sending_time: Seq<char>,
) -> Option<Seq<char>> {
    if t == tags::SendingTime {
        Some(sending_time)
    } else if t == tags::MsgSeqNum {
        if enable_last_msg_seq_num_processed && lookup(fs, tags::LastMsgSeqNumProcessed) is None {
            Some(decimal((next_target - 1) as nat))
        } else {
            Some(decimal((if seq_num > 0 { seq_num } else { next_sender }) as nat))
        }
    } else if t == tags::BeginString {
        Some(id.begin_string@)
    } else if t == tags::SenderCompID {
        Some(id.sender_comp_id@)
    } else if t == tags::SenderSubID && id.sender_sub_id@.len() > 0 {
        Some(id.sender_sub_id@)
    } else if t == tags::SenderLocationID && id.sender_location_id@.len() > 0 {
        Some(id.sender_location_id@)
    } else if t == tags::TargetCompID {
        Some(id.target_comp_id@)
    } else if t == tags::TargetSubID && id.target_sub_id@.len() > 0 {
        Some(id.target_sub_id@)
    } else if t == tags::TargetLocationID && id.target_location_id@.len() > 0 {
        Some(id.target_location_id@)
    } else {
        lookup(fs, t)
    }
}

/// Prepares the header of a message that the session `session_id` sends at
/// `sending_time`.
pub fn initialize_header(
    header: &mut FieldMap,
    session_id: &SessionId,
    seq_num: u32,
    next_sender: u32,
    next_target: u32,
    enable_last_msg_seq_num_processed: bool,
    sending_time: &str,
)
    requires
        old(header).wf(),
        enable_last_msg_seq_num_processed ==> next_target >= 1,
    ensures
        final(header).wf(),
        forall|t: u32|
            final(header).field_value(t) == initialized_value(
                old(header)@.fields,
                t,
                *session_id,
                seq_num,
                next_sender,
                next_target,
                enable_last_msg_seq_num_processed,
                sending_time@,
            ),
        final(header)@.groups == old(header)@.groups,
{
    let ghost fs = old(header)@.fields;
    let last_missing = !header.is_field_set(tags::LastMsgSeqNumProcessed);
    header.set_field(tags::BeginString, session_id.begin_string.as_str());
    header.set_field(tags::SenderCompID, session_id.sender_comp_id.as_str());
    if str_chars(session_id.sender_sub_id.as_str()).len() > 0 {
        header.set_field(tags::SenderSubID, session_id.sender_sub_id.as_str());
    }
    if str_chars(session_id.sender_location_id.as_str()).len() > 0 {
        header.set_field(tags::SenderLocationID, session_id.sender_location_id.as_str());
    }
    header.set_field(tags::TargetCompID, session_id.target_comp_id.as_str());
    if str_chars(session_id.target_sub_id.as_str()).len() > 0 {
        header.set_field(tags::TargetSubID, session_id.target_sub_id.as_str());
    }
    if str_chars(session_id.target_location_id.as_str()).len() > 0 {
        header.set_field(tags::TargetLocationID, session_id.target_location_id.as_str());
    }
    let seq = decimal_string((if seq_num > 0 { seq_num } else { next_sender }) as u64);
    header.set_field(tags::MsgSeqNum, seq.as_str());
    if enable_last_msg_seq_num_processed && last_missing {
        let last = decimal_string((next_target - 1) as u64);
        header.set_field(tags::MsgSeqNum, last.as_str());
    }
    header.set_field(tags::SendingTime, sending_time);
}

/// The `strftime` format of the sending time: the session's precision from
/// FIX.4.2 on (FIXT.1.1 included), whole seconds before.
pub fn sending_time_format<'a>(begin_string: &str, precision: &'a str) -> (r: &'a str)
    ensures
        r@ == (if begin_string@ == "FIXT.1.1"@ || text_le(FIX42@, begin_string@) {
            precision@
        } else {
            "%Y%m%d-%H:%M:%S"@
        }),
{
    if str_eq(begin_string, "FIXT.1.1") || str_le(FIX42, begin_string) {
        precision
    } else {
        "%Y%m%d-%H:%M:%S"
    }
}

/// The fields of a logon that the session itself starts: no encryption,
/// its heartbeat interval, its default application version where its
/// version is FIXT, and a reset of the sequence numbers where one is due.
pub open spec fn logon_fields(heartbeat_int: u32, is_fixt: bool, default_appl_ver_id: Seq<char>, send_reset: bool) -> Seq<
    (u32, Seq<char>),
> {
    seq![(tags::EncryptMethod, decimal(0)), (tags::HeartBtInt, decimal(heartbeat_int as nat))] + (if is_fixt {
        seq![(tags::DefaultApplVerID, default_appl_ver_id)]
    } else {
        Seq::empty()
    }) + (if send_reset {
        seq![(tags::ResetSeqNumFlag, flag_text(true))]
    } else {
        Seq::empty()
    })
}

/// The fields of a logon that the session itself starts.
pub fn generate_logon(heartbeat_int: u32, is_fixt: bool, sender_default_appl_ver_id: &str, send_reset: bool) -> (r: Vec<
    FieldBase,
>)
    ensures
        r@.map_values(|f: FieldBase| f@) == logon_fields(heartbeat_int, is_fixt, sender_default_appl_ver_id@, send_reset),
{
    let mut r: Vec<FieldBase> = Vec::new();
    let e = EncryptMethod::new(EncryptMethod::NONE);
    r.push(e.duplicate());
    let h = HeartBtInt::new(heartbeat_int);
    r.push(h.duplicate());
    let ghost base = r@.map_values(|f: FieldBase| f@);
    assert(base =~= seq![(tags::EncryptMethod, decimal(0)), (tags::HeartBtInt, decimal(heartbeat_int as nat))]);
    if is_fixt {
        let d = DefaultApplVerID::new(sender_default_appl_ver_id.to_owned());
        r.push(d.duplicate());
    }
    let ghost mid = r@.map_values(|f: FieldBase| f@);
    assert(mid =~= base + (if is_fixt {
        seq![(tags::DefaultApplVerID, sender_default_appl_ver_id@)]
    } else {
        Seq::<(u32, Seq<char>)>::empty()
    }));
    if send_reset {
        let f = ResetSeqNumFlag::new(true);
        r.push(f.duplicate());
    }
    assert(r@.map_values(|f: FieldBase| f@) =~= logon_fields(
        heartbeat_int,
        is_fixt,
        sender_default_appl_ver_id@,
        send_reset,
    ));
    r
}

/// Why a session resets its state when it is made: out of its session time,
/// or a new session.
pub fn creation_reset_reason(schedule: &SessionSchedule, now: UtcTime) -> (r: &'static str)
    requires
        utc_time_ok(now),
    ensures
        r@ == (if session_time(*schedule, now) {
            "New session"@
        } else {
            "Out of SessionTime (Session construction)"@
        }),
{
    if schedule.is_session_time(now) {
        "New session"
    } else {
        "Out of SessionTime (Session construction)"
    }
}

} // verus!
