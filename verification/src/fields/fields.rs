//! Typed fields of the session layer.
use vstd::prelude::*;

use std::ops::Deref;

use crate::field_map::{FieldBase, Tag};
use crate::tags;
use crate::text::{decimal, decimal_string};

verus! {

/// The type of a message (tag 35).
pub struct MsgType(FieldBase);

impl MsgType {
    pub const TAG: Tag = tags::MsgType;

    pub const HEARTBEAT: &'static str = "0";

    pub const TEST_REQUEST: &'static str = "1";

    pub const RESEND_REQUEST: &'static str = "2";

    pub const REJECT: &'static str = "3";

    pub const SEQUENCE_RESET: &'static str = "4";

    pub const LOGOUT: &'static str = "5";

    pub const LOGON: &'static str = "A";

    /// The field MsgType with the value `msg_type`.
    pub fn new(msg_type: &str) -> (r: Self)
        ensures
            r@ == (tags::MsgType, msg_type@),
    {
        MsgType(FieldBase::new(Self::TAG, msg_type.to_owned()))
    }
}

impl View for MsgType {
    type V = (u32, Seq<char>);

    /// The field's tag and value.
    closed spec fn view(&self) -> (u32, Seq<char>) {
        self.0@
    }
}

impl Deref for MsgType {
    type Target = FieldBase;

    fn deref(&self) -> (r: &FieldBase)
        ensures
            r@ == self@,
    {
        &self.0
    }
}

/// The encryption method of a logon (tag 98).
#[derive(Debug, Clone)]
pub struct EncryptMethod(FieldBase);

impl EncryptMethod {
    pub const TAG: Tag = tags::EncryptMethod;

    pub const NONE: u32 = 0;

    /// The field EncryptMethod with the value `val`, in decimal.
    pub fn new(val: u32) -> (r: Self)
        ensures
            r@ == (tags::EncryptMethod, decimal(val as nat)),
    {
        EncryptMethod(FieldBase::new(Self::TAG, Self::string_value(val)))
    }

    /// `val` in decimal.
    pub fn string_value(val: u32) -> (r: String)
        ensures
            r@ == decimal(val as nat),
    {
        decimal_string(val as u64)
    }
}

impl View for EncryptMethod {
    type V = (u32, Seq<char>);

    /// The field's tag and value.
    closed spec fn view(&self) -> (u32, Seq<char>) {
        self.0@
    }
}

impl Deref for EncryptMethod {
    type Target = FieldBase;

    fn deref(&self) -> (r: &FieldBase)
        ensures
            r@ == self@,
    {
        &self.0
    }
}

/// The heartbeat interval, in seconds (tag 108).
#[derive(Debug, Clone)]
pub struct HeartBtInt(FieldBase);

impl HeartBtInt {
    pub const TAG: Tag = tags::HeartBtInt;

    pub const NONE: u32 = 0;

    /// The field HeartBtInt with the value `val`, in decimal.
    pub fn new(val: u32) -> (r: Self)
        ensures
            r@ == (tags::HeartBtInt, decimal(val as nat)),
    {
        HeartBtInt(FieldBase::new(Self::TAG, Self::string_value(val)))
    }

    /// `val` in decimal.
    pub fn string_value(val: u32) -> (r: String)
        ensures
            r@ == decimal(val as nat),
    {
        decimal_string(val as u64)
    }
}

impl View for HeartBtInt {
    type V = (u32, Seq<char>);

    /// The field's tag and value.
    closed spec fn view(&self) -> (u32, Seq<char>) {
        self.0@
    }
}

impl Deref for HeartBtInt {
    type Target = FieldBase;

    fn deref(&self) -> (r: &FieldBase)
        ensures
            r@ == self@,
    {
        &self.0
    }
}

/// The default application version (tag 1137).
#[derive(Debug, Clone)]
pub struct DefaultApplVerID(FieldBase);

impl DefaultApplVerID {
    pub const TAG: Tag = tags::DefaultApplVerID;

    /// The field DefaultApplVerID with the value `val`.
    pub fn new(val: String) -> (r: Self)
        ensures
            r@ == (tags::DefaultApplVerID, val@),
    {
        DefaultApplVerID(FieldBase::new(Self::TAG, val))
    }
}

impl View for DefaultApplVerID {
    type V = (u32, Seq<char>);

    /// The field's tag and value.
    closed spec fn view(&self) -> (u32, Seq<char>) {
        self.0@
    }
}

impl Deref for DefaultApplVerID {
    type Target = FieldBase;

    fn deref(&self) -> (r: &FieldBase)
        ensures
            r@ == self@,
    {
        &self.0
    }
}

/// Whether the sequence numbers are reset at logon (tag 141).
#[derive(Debug, Clone)]
pub struct ResetSeqNumFlag(FieldBase);

/// `Y` for true, `N` for false.
pub open spec fn flag_text(val: bool) -> Seq<char> {
    if val {
        "Y"@
    } else {
        "N"@
    }
}

impl ResetSeqNumFlag {
    pub const TAG: Tag = tags::ResetSeqNumFlag;

    pub const NONE: u32 = 0;

    /// The field ResetSeqNumFlag with the value `val`, `Y` or `N`.
    pub fn new(val: bool) -> (r: Self)
        ensures
            r@ == (tags::ResetSeqNumFlag, flag_text(val)),
    {
        ResetSeqNumFlag(FieldBase::new(Self::TAG, Self::string_value(val)))
    }

    /// `Y` for true, `N` for false.
    pub fn string_value(val: bool) -> (r: String)
        ensures
            r@ == flag_text(val),
    {
        if val {
            "Y".to_owned()
        } else {
            "N".to_owned()
        }
    }
}

impl View for ResetSeqNumFlag {
    type V = (u32, Seq<char>);

    /// The field's tag and value.
    closed spec fn view(&self) -> (u32, Seq<char>) {
        self.0@
    }
}

impl Deref for ResetSeqNumFlag {
    type Target = FieldBase;

    fn deref(&self) -> (r: &FieldBase)
        ensures
            r@ == self@,
    {
        &self.0
    }
}

/// The versions of the application layer.
pub struct ApplVerID;

impl ApplVerID {
    pub const FIX27: u32 = 0;

    pub const FIX30: u32 = 1;

    pub const FIX40: u32 = 2;

    pub const FIX41: u32 = 3;

    pub const FIX42: u32 = 4;

    pub const FIX43: u32 = 5;

    pub const FIX44: u32 = 6;

    pub const FIX50: u32 = 7;

    pub const FIX50SP1: u32 = 8;

    pub const FIX50SP2: u32 = 9;
}

/// The reasons of a session-level reject.
pub struct SessionRejectReason;

impl SessionRejectReason {
    pub const VALUE_IS_INCORRECT: &'static str = "Value incorrect";

    pub const SENDING_TIME_ACCURACY_PROBLEM: &'static str = "Sending time";

    pub const COMPID_PROBLEM: &'static str = "Comp ID";

    pub const INVALID_MSGTYPE: &'static str = "Invalid MSG Type";

    pub const INVALID_TAG_NUMBER: &'static str = "Invalid Tag";

    pub const REQUIRED_TAG_MISSING: &'static str = "Required Tag";
}

} // verus!
