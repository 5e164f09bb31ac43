//! The settings of one session, as they are used once read.
use vstd::prelude::*;

use crate::fields::converters::datetime::DateTimeFormat;
use crate::session::session_id::SessionId;
use crate::session::session_schedule::SessionSchedule;

verus! {

/// Whether a session waits for its counterparty or connects to it.
#[derive(Debug, Clone, Copy, PartialEq, Eq, Structural)]
pub enum ConnectionType {
    Acceptor,
    Initiator,
}

/// The connection type named `s`: `acceptor` or `initiator`.
pub open spec fn connection_type_named(s: Seq<char>) -> Option<ConnectionType> {
    if s == "acceptor"@ {
        Some(ConnectionType::Acceptor)
    } else if s == "initiator"@ {
        Some(ConnectionType::Initiator)
    } else {
        None
    }
}

impl ConnectionType {
    /// The connection type named `s`.
    pub fn from_name(s: &str) -> (r: Option<ConnectionType>)
        ensures
            r == connection_type_named(s@),
    {
        if crate::text::str_eq(s, "acceptor") {
            Some(ConnectionType::Acceptor)
        } else if crate::text::str_eq(s, "initiator") {
            Some(ConnectionType::Initiator)
        } else {
            None
        }
    }
}

/// How a session connects: as an acceptor on a host and port, or as an
/// initiator to a host and port with its intervals in seconds.
#[derive(Debug, Clone, PartialEq, Eq)]
pub enum SettingsConnection {
    Acceptor {
        is_dynamic: bool,
        session_qualifier: Option<String>,
        accept_host: Option<String>,
        accept_port: Option<String>,
    },
    Initiator {
        connect_host: Option<String>,
        connect_port: Option<String>,
        reconnect_interval: u32,
        heart_bt_int: u32,
        logon_timeout: u32,
        logout_timeout: u32,
    },
}

/// The options of a session's socket; timeouts in milliseconds.
#[derive(Debug, Clone, PartialEq, Eq)]
pub struct SocketOptions {
    pub no_delay: bool,
    pub receive_buffer_size: u32,
    pub send_buffer_size: u32,
    pub receive_timeout: u32,
    pub send_timeout: u32,
}

/// Where a session logs.
#[derive(Debug, Clone, PartialEq, Eq)]
pub struct LoggingOptions {
    pub file_log_path: Option<String>,
    pub debug_file_log_path: Option<String>,
}

/// Where a session keeps the messages it sent.
#[derive(Debug, Clone, PartialEq, Eq)]
pub enum Persistence {
    FileStore { path: String },
    Memory,
    NoPersistence,
}

/// What a session checks and does around its messages.
#[derive(Debug, Clone, PartialEq, Eq)]
pub struct ValidationOptions {
    pub milliseconds_in_time_stamp: bool,
    pub refresh_on_logon: bool,
    pub reset_on_logon: bool,
    pub reset_on_logout: bool,
    pub reset_on_disconnect: bool,
    pub send_redundant_resend_requests: bool,
    pub resend_session_level_rejects: bool,
    pub time_stamp_precision: DateTimeFormat,
    pub enable_last_msg_seq_num_processed: bool,
    pub max_messages_in_resend_request: u32,
    pub send_logout_before_disconnect_from_timeout: bool,
    pub ignore_poss_dup_resend_requests: bool,
    pub requires_orig_sending_time: bool,
    pub use_data_dictionary: bool,
    pub data_dictionary: Option<String>,
    pub transport_data_dictionary: Option<String>,
    pub app_data_dictionary: Option<String>,
    pub validate_fields_out_of_order: bool,
    pub validate_fields_have_values: bool,
    pub validate_user_defined_fields: bool,
    pub validate_length_and_checksum: bool,
    pub allow_unknown_msg_fields: bool,
    pub check_latency: bool,
    pub max_latency: u32,
}

/// The settings of one session.
#[derive(Debug, Clone, PartialEq, Eq)]
pub struct SessionSetting {
    pub begin_string: String,
    pub sender_comp_id: String,
    pub sender_sub_id: String,
    pub sender_location_id: String,
    pub target_comp_id: String,
    pub target_sub_id: String,
    pub target_location_id: String,
    pub connection: SettingsConnection,
    pub socket_options: SocketOptions,
    pub logging: LoggingOptions,
    pub persistence: Persistence,
    pub default_appl_ver_id: Option<String>,
    pub schedule: SessionSchedule,
    pub validation_options: ValidationOptions,
}

/// How well a session's identity matches a setting's: 7 for each comp id
/// that is equal (6 where the setting's is `*`), 1 for each sub or location
/// id that is equal; a match below 12 counts 0.
pub open spec fn match_score(
    sender_comp_id: Seq<char>,
    sender_sub_id: Seq<char>,
    sender_location_id: Seq<char>,
    target_comp_id: Seq<char>,
    target_sub_id: Seq<char>,
    target_location_id: Seq<char>,
    id: SessionId,
) -> nat {
    let s = comp_score(sender_comp_id, id.sender_comp_id@) + if sender_sub_id == id.sender_sub_id@ {
        1nat
    } else {
        0nat
    } + if sender_location_id == id.sender_location_id@ {
        1nat
    } else {
        0nat
    } + comp_score(target_comp_id, id.target_comp_id@) + if target_sub_id == id.target_sub_id@ {
        1nat
    } else {
        0nat
    } + if target_location_id == id.target_location_id@ {
        1nat
    } else {
        0nat
    };
    if s < 12 {
        0
    } else {
        s
    }
}

/// 6 for `*`, 7 for an equal comp id, 0 otherwise.
pub open spec fn comp_score(setting: Seq<char>, id: Seq<char>) -> nat {
    if setting == "*"@ {
        6
    } else if setting == id {
        7
    } else {
        0
    }
}

fn comp_score_of(setting: &str, id: &str) -> (r: u16)
    ensures
        r == comp_score(setting@, id@),
{
    if crate::text::str_eq(setting, "*") {
        6
    } else if crate::text::str_eq(setting, id) {
        7
    } else {
        0
    }
}

impl SessionSetting {
    /// The session's identity.
    pub fn session_id(&self) -> (r: SessionId)
        ensures
            r.begin_string@ == self.begin_string@,
            r.sender_comp_id@ == self.sender_comp_id@,
            r.sender_sub_id@ == self.sender_sub_id@,
            r.sender_location_id@ == self.sender_location_id@,
            r.target_comp_id@ == self.target_comp_id@,
            r.target_sub_id@ == self.target_sub_id@,
            r.target_location_id@ == self.target_location_id@,
    {
        SessionId::new(
            self.begin_string.as_str(),
            self.sender_comp_id.as_str(),
            self.sender_sub_id.as_str(),
            self.sender_location_id.as_str(),
            self.target_comp_id.as_str(),
            self.target_sub_id.as_str(),
            self.target_location_id.as_str(),
        )
    }

    /// How well `session_id` matches the setting.
    pub fn score(&self, session_id: &SessionId) -> (r: u16)
        ensures
            r == match_score(
                self.sender_comp_id@,
                self.sender_sub_id@,
                self.sender_location_id@,
                self.target_comp_id@,
                self.target_sub_id@,
                self.target_location_id@,
                *session_id,
            ),
    {
        let mut score: u16 = comp_score_of(self.sender_comp_id.as_str(), session_id.sender_comp_id.as_str());
        if crate::text::str_eq(self.sender_sub_id.as_str(), session_id.sender_sub_id.as_str()) {
            score = score + 1;
        }
        if crate::text::str_eq(self.sender_location_id.as_str(), session_id.sender_location_id.as_str()) {
            score = score + 1;
        }
        score = score + comp_score_of(self.target_comp_id.as_str(), session_id.target_comp_id.as_str());
        if crate::text::str_eq(self.target_sub_id.as_str(), session_id.target_sub_id.as_str()) {
            score = score + 1;
        }
        if crate::text::str_eq(self.target_location_id.as_str(), session_id.target_location_id.as_str()) {
            score = score + 1;
        }
        if score < 12 {
            0
        } else {
            score
        }
    }
}

} // verus!
