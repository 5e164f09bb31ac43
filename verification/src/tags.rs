//! The numbers of the FIX fields that the session layer reads and writes.
#![allow(non_upper_case_globals)]

use vstd::prelude::*;

verus! {

pub const BeginSeqNo: u32 = 7;
pub const BeginString: u32 = 8;
pub const BodyLength: u32 = 9;
pub const CheckSum: u32 = 10;
pub const EndSeqNo: u32 = 16;
pub const MsgSeqNum: u32 = 34;
pub const MsgType: u32 = 35;
pub const NewSeqNo: u32 = 36;
pub const PossDupFlag: u32 = 43;
pub const RefSeqNum: u32 = 45;
pub const SenderCompID: u32 = 49;
pub const SenderSubID: u32 = 50;
pub const SendingTime: u32 = 52;
pub const TargetCompID: u32 = 56;
pub const TargetSubID: u32 = 57;
pub const Text: u32 = 58;
pub const Signature: u32 = 89;
pub const SecureDataLen: u32 = 90;
pub const SignatureLength: u32 = 93;
pub const PossResend: u32 = 97;
pub const EncryptMethod: u32 = 98;
pub const HeartBtInt: u32 = 108;
pub const TestReqID: u32 = 112;
pub const OnBehalfOfCompID: u32 = 115;
pub const OnBehalfOfSubID: u32 = 116;
pub const OrigSendingTime: u32 = 122;
pub const GapFillFlag: u32 = 123;
pub const DeliverToCompID: u32 = 128;
pub const DeliverToSubID: u32 = 129;
pub const ResetSeqNumFlag: u32 = 141;
pub const SenderLocationID: u32 = 142;
pub const TargetLocationID: u32 = 143;
pub const OnBehalfOfLocationID: u32 = 144;
pub const DeliverToLocationID: u32 = 145;
pub const XmlDataLen: u32 = 212;
pub const XmlData: u32 = 213;
pub const MessageEncoding: u32 = 347;
pub const RefTagID: u32 = 371;
pub const RefMsgType: u32 = 372;
pub const SessionRejectReason: u32 = 373;
pub const LastMsgSeqNumProcessed: u32 = 369;
pub const OnBehalfOfSendingTime: u32 = 370;
pub const DefaultApplVerID: u32 = 1137;

} // verus!
