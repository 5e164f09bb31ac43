//! The identity of a session: its FIX version and the identities of the
//! two counterparties.
use vstd::prelude::*;

use crate::text::push_str_chars;

verus! {

/// A session's identity.
#[derive(Debug, Clone)]
pub struct SessionId {
    pub id: String,
    pub begin_string: String,
    pub sender_comp_id: String,
    pub sender_sub_id: String,
    pub sender_location_id: String,
    pub target_comp_id: String,
    pub target_sub_id: String,
    pub target_location_id: String,
    pub is_fixt: bool,
}

/// The text of a session's identity: `begin:sender sub location->target sub location`.
pub open spec fn session_id_text(
    begin_string: Seq<char>,
    sender_comp_id: Seq<char>,
    sender_sub_id: Seq<char>,
    sender_location_id: Seq<char>,
    target_comp_id: Seq<char>,
    target_sub_id: Seq<char>,
    target_location_id: Seq<char>,
) -> Seq<char> {
    begin_string + ":"@ + sender_comp_id + sender_sub_id + sender_location_id + "->"@ + target_comp_id
        + target_sub_id + target_location_id
}

/// Whether `s` begins with `FIXT`.
pub open spec fn starts_with_fixt(s: Seq<char>) -> bool {
    s.len() >= 4 && s.subrange(0, 4) == "FIXT"@
}

impl SessionId {
    /// The identity of the session between the sender and the target, in
    /// the FIX version `begin_string`.
    pub fn new(
        begin_string: &str,
        sender_comp_id: &str,
        sender_sub_id: &str,
        sender_location_id: &str,
        target_comp_id: &str,
        target_sub_id: &str,
        target_location_id: &str,
    ) -> (r: Self)
        ensures
            r.id@ == session_id_text(
                begin_string@,
                sender_comp_id@,
                sender_sub_id@,
                sender_location_id@,
                target_comp_id@,
                target_sub_id@,
                target_location_id@,
            ),
            r.begin_string@ == begin_string@,
            r.sender_comp_id@ == sender_comp_id@,
            r.sender_sub_id@ == sender_sub_id@,
            r.sender_location_id@ == sender_location_id@,
            r.target_comp_id@ == target_comp_id@,
            r.target_sub_id@ == target_sub_id@,
            r.target_location_id@ == target_location_id@,
            r.is_fixt == starts_with_fixt(begin_string@),
    {
        let mut v: Vec<char> = Vec::new();
        push_str_chars(&mut v, begin_string);
        push_str_chars(&mut v, ":");
        push_str_chars(&mut v, sender_comp_id);
        push_str_chars(&mut v, sender_sub_id);
        push_str_chars(&mut v, sender_location_id);
        push_str_chars(&mut v, "->");
        push_str_chars(&mut v, target_comp_id);
        push_str_chars(&mut v, target_sub_id);
        push_str_chars(&mut v, target_location_id);
        let id = crate::text::string_from_chars(v.as_slice());
        let cs = crate::text::str_chars(begin_string);
        let fixt = crate::text::str_chars("FIXT");
        proof {
            reveal_strlit("FIXT");
        }
        let is_fixt = cs.len() >= 4 && cs[0] == fixt[0] && cs[1] == fixt[1] && cs[2] == fixt[2] && cs[3] == fixt[3];
        proof {
            if cs@.len() >= 4 {
                assert(is_fixt == (cs@.subrange(0, 4) =~= "FIXT"@));
            }
        }
        SessionId {
            id,
            begin_string: begin_string.to_owned(),
            sender_comp_id: sender_comp_id.to_owned(),
            sender_sub_id: sender_sub_id.to_owned(),
            sender_location_id: sender_location_id.to_owned(),
            target_comp_id: target_comp_id.to_owned(),
            target_sub_id: target_sub_id.to_owned(),
            target_location_id: target_location_id.to_owned(),
            is_fixt,
        }
    }
}

} // verus!
