//! Typed FIX fields and the conversions of their values.
use vstd::prelude::*;

pub mod converters;
mod fields;
pub mod limits;

pub use fields::{
    flag_text, ApplVerID, DefaultApplVerID, EncryptMethod, HeartBtInt, MsgType, ResetSeqNumFlag, SessionRejectReason,
};

verus! {

/// Why a field's value cannot be read as a value of some type.
#[derive(Debug, Clone, PartialEq, Eq, Structural)]
pub enum ConversionError {
    EncodingError,
    IntParseErr,
}

} // verus!
