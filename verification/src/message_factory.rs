//! Makers of messages and group entries for a FIX version.
use vstd::prelude::*;

use crate::field_map::{Group, Tag};
use crate::message::Message;

verus! {

/// Makes the messages and group entries of the FIX versions it supports.
pub trait MessageFactory {
    fn get_supported_begin_strings(&self) -> Vec<String>;

    /// A new message of type `msg_type` for the version `begin_string`; the
    /// message is well formed.
    fn create(&self, begin_string: &str, msg_type: &str) -> (r: Result<Message, MessageFactoryError>)
        ensures
            r matches Ok(m) ==> m.wf(),
    ;

    fn create_group(&self, begin_string: &str, msg_type: &str, group_counter_tag: Tag) -> Group;
}

/// Why a factory made no message.
#[derive(Clone, Debug)]
pub enum MessageFactoryError {
    UnsupportedBeginString(String),
    UnsupportedMsgType(String),
}

} // verus!
