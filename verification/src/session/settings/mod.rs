//! Session settings: read from an INI-like text with a `[DEFAULT]` section
//! followed by `[SESSION]` sections, each session's values completed by the
//! default ones.
use vstd::prelude::*;

use crate::session::session_id::SessionId;
use crate::text::{chars_eq_ignore_case, eq_ignore_case, lines_of, str_eq, string_from_chars, text_lines, trim_chars, trimmed, unbracketed};

pub mod builder;
pub mod setting;

pub use builder::{
    builder_of, flag_of, merged, no_values, number_of, schedule_of, setting_is, text_of, validation_errors, value_of,
    DynamicSessionSettingBuilder, LineFailure, ScheduleModel, Validated, line_outcome,
};
pub use setting::{
    match_score, ConnectionType, LoggingOptions, Persistence, SessionSetting, SettingsConnection, SocketOptions,
    ValidationOptions,
};

verus! {

/// A setting of a session.
#[derive(Debug, Clone, Copy, PartialEq, Eq, Structural)]
pub enum SettingOption {
    IsDynamic,
    BeginString,
    SenderCompID,
    SenderSubID,
    SenderLocationID,
    TargetCompID,
    TargetSubID,
    TargetLocationID,
    SessionQualifier,
    DefaultApplVerID,
    ConnectionType,
    UseDataDictionary,
    NonStopSession,
    UseLocalTime,
    TimeZone,
    StartDay,
    EndDay,
    StartTime,
    EndTime,
    HeartBtInt,
    SocketAcceptHost,
    SocketAcceptPort,
    SocketConnectHost,
    SocketConnectPort,
    ReconnectInterval,
    FileLogPath,
    DebugFileLogPath,
    FileStorePath,
    RefreshOnLogon,
    ResetOnLogon,
    ResetOnLogout,
    ResetOnDisconnect,
    ValidateFieldsOutOfOrder,
    ValidateFieldsHaveValues,
    ValidateUserDefinedFields,
    ValidateLengthAndChecksum,
    AllowUnknownMsgFields,
    DataDictionary,
    TransportDataDictionary,
    AppDataDictionary,
    PersistMessages,
    LogonTimeout,
    LogoutTimeout,
    SendRedundantResendRequests,
    ResendSessionLevelRejects,
    MillisecondsInTimeStamp,
    TimeStampPrecision,
    EnableLastMsgSeqNumProcessed,
    MaxMessagesInResendRequest,
    SendLogoutBeforeDisconnectFromTimeout,
    SocketNodelay,
    SocketSendBufferSize,
    SocketReceiveBufferSize,
    SocketSendTimeout,
    SocketReceiveTimeout,
    IgnorePossDupResendRequests,
    RequiresOrigSendingTime,
    CheckLatency,
    MaxLatency,
    SSLEnable,
    SSLServerName,
    SSLProtocols,
    SSLValidateCertificates,
    SSLCheckCertificateRevocation,
    SSLCertificate,
    SSLCertificatePassword,
    SSLRequireClientCertificate,
    SSLCACertificate,
}

/// The number of settings that a session keeps (the SSL ones are read and
/// dropped).
pub const SETTING_SLOTS: usize = 59;

/// The setting named `s`.
pub open spec fn setting_named(s: Seq<char>) -> Option<SettingOption> {
    if s == "IsDynamic"@ {
        Some(SettingOption::IsDynamic)
    } else if s == "BeginString"@ {
        Some(SettingOption::BeginString)
    } else if s == "SenderCompID"@ {
        Some(SettingOption::SenderCompID)
    } else if s == "SenderSubID"@ {
        Some(SettingOption::SenderSubID)
    } else if s == "SenderLocationID"@ {
        Some(SettingOption::SenderLocationID)
    } else if s == "TargetCompID"@ {
        Some(SettingOption::TargetCompID)
    } else if s == "TargetSubID"@ {
        Some(SettingOption::TargetSubID)
    } else if s == "TargetLocationID"@ {
        Some(SettingOption::TargetLocationID)
    } else if s == "SessionQualifier"@ {
        Some(SettingOption::SessionQualifier)
    } else if s == "DefaultApplVerID"@ {
        Some(SettingOption::DefaultApplVerID)
    } else if s == "ConnectionType"@ {
        Some(SettingOption::ConnectionType)
    } else if s == "UseDataDictionary"@ {
        Some(SettingOption::UseDataDictionary)
    } else if s == "NonStopSession"@ {
        Some(SettingOption::NonStopSession)
    } else if s == "UseLocalTime"@ {
        Some(SettingOption::UseLocalTime)
    } else if s == "TimeZone"@ {
        Some(SettingOption::TimeZone)
    } else if s == "StartDay"@ {
        Some(SettingOption::StartDay)
    } else if s == "EndDay"@ {
        Some(SettingOption::EndDay)
    } else if s == "StartTime"@ {
        Some(SettingOption::StartTime)
    } else if s == "EndTime"@ {
        Some(SettingOption::EndTime)
    } else if s == "HeartBtInt"@ {
        Some(SettingOption::HeartBtInt)
    } else if s == "SocketAcceptHost"@ {
        Some(SettingOption::SocketAcceptHost)
    } else if s == "SocketAcceptPort"@ {
        Some(SettingOption::SocketAcceptPort)
    } else if s == "SocketConnectHost"@ {
        Some(SettingOption::SocketConnectHost)
    } else if s == "SocketConnectPort"@ {
        Some(SettingOption::SocketConnectPort)
    } else if s == "ReconnectInterval"@ {
        Some(SettingOption::ReconnectInterval)
    } else if s == "FileLogPath"@ {
        Some(SettingOption::FileLogPath)
    } else if s == "DebugFileLogPath"@ {
        Some(SettingOption::DebugFileLogPath)
    } else if s == "FileStorePath"@ {
        Some(SettingOption::FileStorePath)
    } else if s == "RefreshOnLogon"@ {
        Some(SettingOption::RefreshOnLogon)
    } else if s == "ResetOnLogon"@ {
        Some(SettingOption::ResetOnLogon)
    } else if s == "ResetOnLogout"@ {
        Some(SettingOption::ResetOnLogout)
    } else if s == "ResetOnDisconnect"@ {
        Some(SettingOption::ResetOnDisconnect)
    } else if s == "ValidateFieldsOutOfOrder"@ {
        Some(SettingOption::ValidateFieldsOutOfOrder)
    } else if s == "ValidateFieldsHaveValues"@ {
        Some(SettingOption::ValidateFieldsHaveValues)
    } else if s == "ValidateUserDefinedFields"@ {
        Some(SettingOption::ValidateUserDefinedFields)
    } else if s == "ValidateLengthAndChecksum"@ {
        Some(SettingOption::ValidateLengthAndChecksum)
    } else if s == "AllowUnknownMsgFields"@ {
        Some(SettingOption::AllowUnknownMsgFields)
    } else if s == "DataDictionary"@ {
        Some(SettingOption::DataDictionary)
    } else if s == "TransportDataDictionary"@ {
        Some(SettingOption::TransportDataDictionary)
    } else if s == "AppDataDictionary"@ {
        Some(SettingOption::AppDataDictionary)
    } else if s == "PersistMessages"@ {
        Some(SettingOption::PersistMessages)
    } else if s == "LogonTimeout"@ {
        Some(SettingOption::LogonTimeout)
    } else if s == "LogoutTimeout"@ {
        Some(SettingOption::LogoutTimeout)
    } else if s == "SendRedundantResendRequests"@ {
        Some(SettingOption::SendRedundantResendRequests)
    } else if s == "ResendSessionLevelRejects"@ {
        Some(SettingOption::ResendSessionLevelRejects)
    } else if s == "MillisecondsInTimeStamp"@ {
        Some(SettingOption::MillisecondsInTimeStamp)
    } else if s == "TimeStampPrecision"@ {
        Some(SettingOption::TimeStampPrecision)
    } else if s == "EnableLastMsgSeqNumProcessed"@ {
        Some(SettingOption::EnableLastMsgSeqNumProcessed)
    } else if s == "MaxMessagesInResendRequest"@ {
        Some(SettingOption::MaxMessagesInResendRequest)
    } else if s == "SendLogoutBeforeDisconnectFromTimeout"@ {
        Some(SettingOption::SendLogoutBeforeDisconnectFromTimeout)
    } else if s == "SocketNodelay"@ {
        Some(SettingOption::SocketNodelay)
    } else if s == "SocketSendBufferSize"@ {
        Some(SettingOption::SocketSendBufferSize)
    } else if s == "SocketReceiveBufferSize"@ {
        Some(SettingOption::SocketReceiveBufferSize)
    } else if s == "SocketSendTimeout"@ {
        Some(SettingOption::SocketSendTimeout)
    } else if s == "SocketReceiveTimeout"@ {
        Some(SettingOption::SocketReceiveTimeout)
    } else if s == "IgnorePossDupResendRequests"@ {
        Some(SettingOption::IgnorePossDupResendRequests)
    } else if s == "RequiresOrigSendingTime"@ {
        Some(SettingOption::RequiresOrigSendingTime)
    } else if s == "CheckLatency"@ {
        Some(SettingOption::CheckLatency)
    } else if s == "MaxLatency"@ {
        Some(SettingOption::MaxLatency)
    } else if s == "SSLEnable"@ {
        Some(SettingOption::SSLEnable)
    } else if s == "SSLServerName"@ {
        Some(SettingOption::SSLServerName)
    } else if s == "SSLProtocols"@ {
        Some(SettingOption::SSLProtocols)
    } else if s == "SSLValidateCertificates"@ {
        Some(SettingOption::SSLValidateCertificates)
    } else if s == "SSLCheckCertificateRevocation"@ {
        Some(SettingOption::SSLCheckCertificateRevocation)
    } else if s == "SSLCertificate"@ {
        Some(SettingOption::SSLCertificate)
    } else if s == "SSLCertificatePassword"@ {
        Some(SettingOption::SSLCertificatePassword)
    } else if s == "SSLRequireClientCertificate"@ {
        Some(SettingOption::SSLRequireClientCertificate)
    } else if s == "SSLCACertificate"@ {
        Some(SettingOption::SSLCACertificate)
    } else {
        None
    }
}

/// The place where a session keeps the value of a setting; the SSL settings have none.
pub open spec fn setting_slot(o: SettingOption) -> Option<nat> {
    match o {
        SettingOption::IsDynamic => Some(0nat),
        SettingOption::BeginString => Some(1nat),
        SettingOption::SenderCompID => Some(2nat),
        SettingOption::SenderSubID => Some(3nat),
        SettingOption::SenderLocationID => Some(4nat),
        SettingOption::TargetCompID => Some(5nat),
        SettingOption::TargetSubID => Some(6nat),
        SettingOption::TargetLocationID => Some(7nat),
        SettingOption::SessionQualifier => Some(8nat),
        SettingOption::DefaultApplVerID => Some(9nat),
        SettingOption::ConnectionType => Some(10nat),
        SettingOption::UseDataDictionary => Some(11nat),
        SettingOption::NonStopSession => Some(12nat),
        SettingOption::UseLocalTime => Some(13nat),
        SettingOption::TimeZone => Some(14nat),
        SettingOption::StartDay => Some(15nat),
        SettingOption::EndDay => Some(16nat),
        SettingOption::StartTime => Some(17nat),
        SettingOption::EndTime => Some(18nat),
        SettingOption::HeartBtInt => Some(19nat),
        SettingOption::SocketAcceptHost => Some(20nat),
        SettingOption::SocketAcceptPort => Some(21nat),
        SettingOption::SocketConnectHost => Some(22nat),
        SettingOption::SocketConnectPort => Some(23nat),
        SettingOption::ReconnectInterval => Some(24nat),
        SettingOption::FileLogPath => Some(25nat),
        SettingOption::DebugFileLogPath => Some(26nat),
        SettingOption::FileStorePath => Some(27nat),
        SettingOption::RefreshOnLogon => Some(28nat),
        SettingOption::ResetOnLogon => Some(29nat),
        SettingOption::ResetOnLogout => Some(30nat),
        SettingOption::ResetOnDisconnect => Some(31nat),
        SettingOption::ValidateFieldsOutOfOrder => Some(32nat),
        SettingOption::ValidateFieldsHaveValues => Some(33nat),
        SettingOption::ValidateUserDefinedFields => Some(34nat),
        SettingOption::ValidateLengthAndChecksum => Some(35nat),
        SettingOption::AllowUnknownMsgFields => Some(36nat),
        SettingOption::DataDictionary => Some(37nat),
        SettingOption::TransportDataDictionary => Some(38nat),
        SettingOption::AppDataDictionary => Some(39nat),
        SettingOption::PersistMessages => Some(40nat),
        SettingOption::LogonTimeout => Some(41nat),
        SettingOption::LogoutTimeout => Some(42nat),
        SettingOption::SendRedundantResendRequests => Some(43nat),
        SettingOption::ResendSessionLevelRejects => Some(44nat),
        SettingOption::MillisecondsInTimeStamp => Some(45nat),
        SettingOption::TimeStampPrecision => Some(46nat),
        SettingOption::EnableLastMsgSeqNumProcessed => Some(47nat),
        SettingOption::MaxMessagesInResendRequest => Some(48nat),
        SettingOption::SendLogoutBeforeDisconnectFromTimeout => Some(49nat),
        SettingOption::SocketNodelay => Some(50nat),
        SettingOption::SocketSendBufferSize => Some(51nat),
        SettingOption::SocketReceiveBufferSize => Some(52nat),
        SettingOption::SocketSendTimeout => Some(53nat),
        SettingOption::SocketReceiveTimeout => Some(54nat),
        SettingOption::IgnorePossDupResendRequests => Some(55nat),
        SettingOption::RequiresOrigSendingTime => Some(56nat),
        SettingOption::CheckLatency => Some(57nat),
        SettingOption::MaxLatency => Some(58nat),
        SettingOption::SSLEnable => None,
        SettingOption::SSLServerName => None,
        SettingOption::SSLProtocols => None,
        SettingOption::SSLValidateCertificates => None,
        SettingOption::SSLCheckCertificateRevocation => None,
        SettingOption::SSLCertificate => None,
        SettingOption::SSLCertificatePassword => None,
        SettingOption::SSLRequireClientCertificate => None,
        SettingOption::SSLCACertificate => None,
    }
}

/// The setting named `s`.
pub fn setting_of(s: &str) -> (r: Option<SettingOption>)
    ensures
        r == setting_named(s@),
{
    if str_eq(s, "IsDynamic") {
        Some(SettingOption::IsDynamic)
    } else if str_eq(s, "BeginString") {
        Some(SettingOption::BeginString)
    } else if str_eq(s, "SenderCompID") {
        Some(SettingOption::SenderCompID)
    } else if str_eq(s, "SenderSubID") {
        Some(SettingOption::SenderSubID)
    } else if str_eq(s, "SenderLocationID") {
        Some(SettingOption::SenderLocationID)
    } else if str_eq(s, "TargetCompID") {
        Some(SettingOption::TargetCompID)
    } else if str_eq(s, "TargetSubID") {
        Some(SettingOption::TargetSubID)
    } else if str_eq(s, "TargetLocationID") {
        Some(SettingOption::TargetLocationID)
    } else if str_eq(s, "SessionQualifier") {
        Some(SettingOption::SessionQualifier)
    } else if str_eq(s, "DefaultApplVerID") {
        Some(SettingOption::DefaultApplVerID)
    } else if str_eq(s, "ConnectionType") {
        Some(SettingOption::ConnectionType)
    } else if str_eq(s, "UseDataDictionary") {
        Some(SettingOption::UseDataDictionary)
    } else if str_eq(s, "NonStopSession") {
        Some(SettingOption::NonStopSession)
    } else if str_eq(s, "UseLocalTime") {
        Some(SettingOption::UseLocalTime)
    } else if str_eq(s, "TimeZone") {
        Some(SettingOption::TimeZone)
    } else if str_eq(s, "StartDay") {
        Some(SettingOption::StartDay)
    } else if str_eq(s, "EndDay") {
        Some(SettingOption::EndDay)
    } else if str_eq(s, "StartTime") {
        Some(SettingOption::StartTime)
    } else if str_eq(s, "EndTime") {
        Some(SettingOption::EndTime)
    } else if str_eq(s, "HeartBtInt") {
        Some(SettingOption::HeartBtInt)
    } else if str_eq(s, "SocketAcceptHost") {
        Some(SettingOption::SocketAcceptHost)
    } else if str_eq(s, "SocketAcceptPort") {
        Some(SettingOption::SocketAcceptPort)
    } else if str_eq(s, "SocketConnectHost") {
        Some(SettingOption::SocketConnectHost)
    } else if str_eq(s, "SocketConnectPort") {
        Some(SettingOption::SocketConnectPort)
    } else if str_eq(s, "ReconnectInterval") {
        Some(SettingOption::ReconnectInterval)
    } else if str_eq(s, "FileLogPath") {
        Some(SettingOption::FileLogPath)
    } else if str_eq(s, "DebugFileLogPath") {
        Some(SettingOption::DebugFileLogPath)
    } else if str_eq(s, "FileStorePath") {
        Some(SettingOption::FileStorePath)
    } else if str_eq(s, "RefreshOnLogon") {
        Some(SettingOption::RefreshOnLogon)
    } else if str_eq(s, "ResetOnLogon") {
        Some(SettingOption::ResetOnLogon)
    } else if str_eq(s, "ResetOnLogout") {
        Some(SettingOption::ResetOnLogout)
    } else if str_eq(s, "ResetOnDisconnect") {
        Some(SettingOption::ResetOnDisconnect)
    } else if str_eq(s, "ValidateFieldsOutOfOrder") {
        Some(SettingOption::ValidateFieldsOutOfOrder)
    } else if str_eq(s, "ValidateFieldsHaveValues") {
        Some(SettingOption::ValidateFieldsHaveValues)
    } else if str_eq(s, "ValidateUserDefinedFields") {
        Some(SettingOption::ValidateUserDefinedFields)
    } else if str_eq(s, "ValidateLengthAndChecksum") {
        Some(SettingOption::ValidateLengthAndChecksum)
    } else if str_eq(s, "AllowUnknownMsgFields") {
        Some(SettingOption::AllowUnknownMsgFields)
    } else if str_eq(s, "DataDictionary") {
        Some(SettingOption::DataDictionary)
    } else if str_eq(s, "TransportDataDictionary") {
        Some(SettingOption::TransportDataDictionary)
    } else if str_eq(s, "AppDataDictionary") {
        Some(SettingOption::AppDataDictionary)
    } else if str_eq(s, "PersistMessages") {
        Some(SettingOption::PersistMessages)
    } else if str_eq(s, "LogonTimeout") {
        Some(SettingOption::LogonTimeout)
    } else if str_eq(s, "LogoutTimeout") {
        Some(SettingOption::LogoutTimeout)
    } else if str_eq(s, "SendRedundantResendRequests") {
        Some(SettingOption::SendRedundantResendRequests)
    } else if str_eq(s, "ResendSessionLevelRejects") {
        Some(SettingOption::ResendSessionLevelRejects)
    } else if str_eq(s, "MillisecondsInTimeStamp") {
        Some(SettingOption::MillisecondsInTimeStamp)
    } else if str_eq(s, "TimeStampPrecision") {
        Some(SettingOption::TimeStampPrecision)
    } else if str_eq(s, "EnableLastMsgSeqNumProcessed") {
        Some(SettingOption::EnableLastMsgSeqNumProcessed)
    } else if str_eq(s, "MaxMessagesInResendRequest") {
        Some(SettingOption::MaxMessagesInResendRequest)
    } else if str_eq(s, "SendLogoutBeforeDisconnectFromTimeout") {
        Some(SettingOption::SendLogoutBeforeDisconnectFromTimeout)
    } else if str_eq(s, "SocketNodelay") {
        Some(SettingOption::SocketNodelay)
    } else if str_eq(s, "SocketSendBufferSize") {
        Some(SettingOption::SocketSendBufferSize)
    } else if str_eq(s, "SocketReceiveBufferSize") {
        Some(SettingOption::SocketReceiveBufferSize)
    } else if str_eq(s, "SocketSendTimeout") {
        Some(SettingOption::SocketSendTimeout)
    } else if str_eq(s, "SocketReceiveTimeout") {
        Some(SettingOption::SocketReceiveTimeout)
    } else if str_eq(s, "IgnorePossDupResendRequests") {
        Some(SettingOption::IgnorePossDupResendRequests)
    } else if str_eq(s, "RequiresOrigSendingTime") {
        Some(SettingOption::RequiresOrigSendingTime)
    } else if str_eq(s, "CheckLatency") {
        Some(SettingOption::CheckLatency)
    } else if str_eq(s, "MaxLatency") {
        Some(SettingOption::MaxLatency)
    } else if str_eq(s, "SSLEnable") {
        Some(SettingOption::SSLEnable)
    } else if str_eq(s, "SSLServerName") {
        Some(SettingOption::SSLServerName)
    } else if str_eq(s, "SSLProtocols") {
        Some(SettingOption::SSLProtocols)
    } else if str_eq(s, "SSLValidateCertificates") {
        Some(SettingOption::SSLValidateCertificates)
    } else if str_eq(s, "SSLCheckCertificateRevocation") {
        Some(SettingOption::SSLCheckCertificateRevocation)
    } else if str_eq(s, "SSLCertificate") {
        Some(SettingOption::SSLCertificate)
    } else if str_eq(s, "SSLCertificatePassword") {
        Some(SettingOption::SSLCertificatePassword)
    } else if str_eq(s, "SSLRequireClientCertificate") {
        Some(SettingOption::SSLRequireClientCertificate)
    } else if str_eq(s, "SSLCACertificate") {
        Some(SettingOption::SSLCACertificate)
    } else {
        None
    }
}

/// The place where a session keeps the value of a setting.
pub fn slot_of(o: SettingOption) -> (r: Option<usize>)
    ensures
        match setting_slot(o) {
            Some(i) => r == Some(i as usize) && i < SETTING_SLOTS,
            None => r is None,
        },
{
    match o {
        SettingOption::IsDynamic => Some(0),
        SettingOption::BeginString => Some(1),
        SettingOption::SenderCompID => Some(2),
        SettingOption::SenderSubID => Some(3),
        SettingOption::SenderLocationID => Some(4),
        SettingOption::TargetCompID => Some(5),
        SettingOption::TargetSubID => Some(6),
        SettingOption::TargetLocationID => Some(7),
        SettingOption::SessionQualifier => Some(8),
        SettingOption::DefaultApplVerID => Some(9),
        SettingOption::ConnectionType => Some(10),
        SettingOption::UseDataDictionary => Some(11),
        SettingOption::NonStopSession => Some(12),
        SettingOption::UseLocalTime => Some(13),
        SettingOption::TimeZone => Some(14),
        SettingOption::StartDay => Some(15),
        SettingOption::EndDay => Some(16),
        SettingOption::StartTime => Some(17),
        SettingOption::EndTime => Some(18),
        SettingOption::HeartBtInt => Some(19),
        SettingOption::SocketAcceptHost => Some(20),
        SettingOption::SocketAcceptPort => Some(21),
        SettingOption::SocketConnectHost => Some(22),
        SettingOption::SocketConnectPort => Some(23),
        SettingOption::ReconnectInterval => Some(24),
        SettingOption::FileLogPath => Some(25),
        SettingOption::DebugFileLogPath => Some(26),
        SettingOption::FileStorePath => Some(27),
        SettingOption::RefreshOnLogon => Some(28),
        SettingOption::ResetOnLogon => Some(29),
        SettingOption::ResetOnLogout => Some(30),
        SettingOption::ResetOnDisconnect => Some(31),
        SettingOption::ValidateFieldsOutOfOrder => Some(32),
        SettingOption::ValidateFieldsHaveValues => Some(33),
        SettingOption::ValidateUserDefinedFields => Some(34),
        SettingOption::ValidateLengthAndChecksum => Some(35),
        SettingOption::AllowUnknownMsgFields => Some(36),
        SettingOption::DataDictionary => Some(37),
        SettingOption::TransportDataDictionary => Some(38),
        SettingOption::AppDataDictionary => Some(39),
        SettingOption::PersistMessages => Some(40),
        SettingOption::LogonTimeout => Some(41),
        SettingOption::LogoutTimeout => Some(42),
        SettingOption::SendRedundantResendRequests => Some(43),
        SettingOption::ResendSessionLevelRejects => Some(44),
        SettingOption::MillisecondsInTimeStamp => Some(45),
        SettingOption::TimeStampPrecision => Some(46),
        SettingOption::EnableLastMsgSeqNumProcessed => Some(47),
        SettingOption::MaxMessagesInResendRequest => Some(48),
        SettingOption::SendLogoutBeforeDisconnectFromTimeout => Some(49),
        SettingOption::SocketNodelay => Some(50),
        SettingOption::SocketSendBufferSize => Some(51),
        SettingOption::SocketReceiveBufferSize => Some(52),
        SettingOption::SocketSendTimeout => Some(53),
        SettingOption::SocketReceiveTimeout => Some(54),
        SettingOption::IgnorePossDupResendRequests => Some(55),
        SettingOption::RequiresOrigSendingTime => Some(56),
        SettingOption::CheckLatency => Some(57),
        SettingOption::MaxLatency => Some(58),
        SettingOption::SSLEnable => None,
        SettingOption::SSLServerName => None,
        SettingOption::SSLProtocols => None,
        SettingOption::SSLValidateCertificates => None,
        SettingOption::SSLCheckCertificateRevocation => None,
        SettingOption::SSLCertificate => None,
        SettingOption::SSLCertificatePassword => None,
        SettingOption::SSLRequireClientCertificate => None,
        SettingOption::SSLCACertificate => None,
    }
}

impl SettingOption {
    /// The setting named `value`.
    pub fn try_from(value: &str) -> (r: Result<SettingOption, SessionSettingsError>)
        ensures
            match setting_named(value@) {
                Some(o) => r matches Ok(x) && x == o,
                None => r matches Err(SessionSettingsError::NoSuchSetting(s)) && s@ == value@,
            },
    {
        match setting_of(value) {
            Some(o) => Ok(o),
            None => Err(SessionSettingsError::NoSuchSetting(value.to_owned())),
        }
    }
}

#[verifier::external_type_specification]
#[verifier::external_body]
pub struct ExIoError(std::io::Error);

/// Why settings cannot be read.
#[derive(Debug)]
pub enum SessionSettingsError {
    NoSuchSetting(String),
    IoError(std::io::Error),
    NoDefaultSection,
    DefaultSectionAlreadyDefined,
    ValidationErrors(Vec<String>),
    InvalidValue { setting: SettingOption, value: String },
    LineParseError { line: String, reason: String, line_number: usize },
}

/// The settings of the sessions that a text describes, in the order of
/// their sections.
#[derive(Debug, Clone)]
pub struct SessionSettings {
    pub sessions: Vec<SessionSetting>,
}

impl Default for SessionSettings {
    fn default() -> (r: Self)
        ensures
            r.sessions@.len() == 0,
    {
        SessionSettings { sessions: Vec::new() }
    }
}

/// Why a text of settings is refused.
pub enum SettingsFailure {
    NoSuchSetting(Seq<char>),
    LineParse { line: Seq<char>, reason: Seq<char>, line_number: nat },
    NoDefaultSection,
    DefaultSectionAlreadyDefined,
    Validation(Seq<Seq<char>>),
    InvalidValue(SettingOption, Seq<char>),
}

/// Where reading a text of settings stands after some of its lines: whether
/// the default section began and ended, the values of the section being
/// read, the default values, and the values of the sessions read so far.
pub struct ReadState {
    pub default_started: bool,
    pub default_ended: bool,
    pub last: Option<Seq<Option<Seq<char>>>>,
    pub default: Option<Seq<Option<Seq<char>>>>,
    pub sessions: Seq<Seq<Option<Seq<char>>>>,
}

/// Before the first line.
pub open spec fn initial_read() -> ReadState {
    ReadState { default_started: false, default_ended: false, last: None, default: None, sessions: Seq::empty() }
}

/// The values of a session, completed by the default ones where there are some.
pub open spec fn completed(v: Seq<Option<Seq<char>>>, d: Option<Seq<Option<Seq<char>>>>) -> Seq<Option<Seq<char>>> {
    match d {
        Some(d) => merged(v, d),
        None => v,
    }
}

/// The values of a session if they make a setting, else why not.
pub open spec fn session_outcome(v: Seq<Option<Seq<char>>>) -> Result<Seq<Option<Seq<char>>>, SettingsFailure> {
    if validation_errors(v).len() > 0 {
        Err(SettingsFailure::Validation(validation_errors(v)))
    } else {
        match schedule_of(v) {
            Ok(_) => Ok(v),
            Err((o, x)) => Err(SettingsFailure::InvalidValue(o, x)),
        }
    }
}

/// The section being read, completed and added to the sessions.
pub open spec fn push_session(st: ReadState) -> Result<ReadState, SettingsFailure> {
    match st.last {
        None => Ok(st),
        Some(v) => match session_outcome(completed(v, st.default)) {
            Err(e) => Err(e),
            Ok(w) => Ok(ReadState { sessions: st.sessions.push(w), ..st }),
        },
    }
}

/// The failure of the line `line`, numbered `n`.
pub open spec fn line_failure(f: LineFailure, line: Seq<char>, n: nat) -> SettingsFailure {
    match f {
        LineFailure::TooManyEquals => SettingsFailure::LineParse {
            line,
            reason: "Too many '=' in line."@,
            line_number: n,
        },
        LineFailure::NoValue => SettingsFailure::LineParse { line, reason: "No value specified."@, line_number: n },
        LineFailure::NoSuchSetting(name) => SettingsFailure::NoSuchSetting(name),
    }
}

/// One line, numbered `n`, read: a comment is skipped; `[DEFAULT]` begins
/// the default section, once; `[SESSION]` ends the default section or the
/// session before it; any other line sets a value of the section being read,
/// and lines before the default section are skipped. The names of sections
/// are read in any case, with the line trimmed of white space and brackets.
pub open spec fn read_step(st: ReadState, line: Seq<char>, n: nat) -> Result<ReadState, SettingsFailure> {
    let t = trimmed(line);
    let u = unbracketed(t);
    let is_default = eq_ignore_case(u, "default"@);
    let is_session = eq_ignore_case(u, "session"@);
    if t.len() > 0 && t[0] == '#' {
        Ok(st)
    } else if !st.default_started && !st.default_ended && is_default {
        Ok(ReadState { last: Some(no_values()), default_started: true, ..st })
    } else if st.default_started && is_default {
        Err(SettingsFailure::DefaultSectionAlreadyDefined)
    } else if st.default_started && !st.default_ended && is_session {
        Ok(ReadState { default: st.last, last: Some(no_values()), default_ended: true, ..st })
    } else if st.default_started && st.default_ended && is_session {
        match push_session(st) {
            Err(e) => Err(e),
            Ok(s) => Ok(ReadState { last: Some(no_values()), ..s }),
        }
    } else {
        match st.last {
            Some(v) => match line_outcome(v, t) {
                Ok(w) => Ok(ReadState { last: Some(w), ..st }),
                Err(f) => Err(line_failure(f, t, n)),
            },
            None => Ok(st),
        }
    }
}

/// The lines read in turn, numbered from 1.
pub open spec fn read_lines(lines: Seq<Seq<char>>) -> Result<ReadState, SettingsFailure>
    decreases lines.len(),
{
    if lines.len() == 0 {
        Ok(initial_read())
    } else {
        match read_lines(lines.drop_last()) {
            Err(e) => Err(e),
            Ok(st) => read_step(st, lines.last(), lines.len()),
        }
    }
}

/// The values of the sessions that the text `s` describes, each completed by
/// the default ones, or why the text is refused: the last section is added
/// at the end of the text, and a text without a default section followed by
/// a session section is refused.
pub open spec fn settings_outcome(s: Seq<char>) -> Result<Seq<Seq<Option<Seq<char>>>>, SettingsFailure> {
    match read_lines(text_lines(s)) {
        Err(e) => Err(e),
        Ok(st) => {
            let fin = if st.default_started && st.default_ended {
                push_session(st)
            } else {
                Ok(st)
            };
            match fin {
                Err(e) => Err(e),
                Ok(f) => if f.default is None {
                    Err(SettingsFailure::NoDefaultSection)
                } else {
                    Ok(f.sessions)
                },
            }
        },
    }
}

/// Whether `e` is the error that `f` describes.
pub open spec fn failure_is(e: SessionSettingsError, f: SettingsFailure) -> bool {
    match f {
        SettingsFailure::NoSuchSetting(name) => e matches SessionSettingsError::NoSuchSetting(s) && s@ == name,
        SettingsFailure::LineParse { line, reason, line_number } => e matches SessionSettingsError::LineParseError {
            line: l,
            reason: x,
            line_number: k,
        } && l@ == line && x@ == reason && k == line_number,
        SettingsFailure::NoDefaultSection => e is NoDefaultSection,
        SettingsFailure::DefaultSectionAlreadyDefined => e is DefaultSectionAlreadyDefined,
        SettingsFailure::Validation(es) => e matches SessionSettingsError::ValidationErrors(v) && v@.map_values(
            |x: String| x@,
        ) == es,
        SettingsFailure::InvalidValue(o, x) => e matches SessionSettingsError::InvalidValue { setting, value }
            && setting == o && value@ == x,
    }
}

/// The schedule that the values describe, where they describe one.
pub open spec fn schedule_in(v: Seq<Option<Seq<char>>>) -> ScheduleModel {
    match schedule_of(v) {
        Ok(m) => m,
        Err(_) => ScheduleModel::NonStop,
    }
}

/// Whether the settings `ss` are those that the values `vs` describe.
pub open spec fn sessions_are(ss: Seq<SessionSetting>, vs: Seq<Seq<Option<Seq<char>>>>) -> bool {
    &&& ss.len() == vs.len()
    &&& forall|i: int| 0 <= i < vs.len() ==> setting_is(#[trigger] ss[i], vs[i], schedule_in(vs[i]))
}

pub open spec fn builder_view(o: Option<DynamicSessionSettingBuilder>) -> Option<Seq<Option<Seq<char>>>> {
    match o {
        Some(b) => Some(b@),
        None => None,
    }
}

pub open spec fn builder_wf(o: Option<DynamicSessionSettingBuilder>) -> bool {
    match o {
        Some(b) => b.wf(),
        None => true,
    }
}

/// How well the identity `id` matches the setting `s` (see `match_score`).
pub open spec fn setting_score(s: SessionSetting, id: SessionId) -> nat {
    match_score(
        s.sender_comp_id@,
        s.sender_sub_id@,
        s.sender_location_id@,
        s.target_comp_id@,
        s.target_sub_id@,
        s.target_location_id@,
        id,
    )
}

proof fn lemma_read_lines_step(lines: Seq<Seq<char>>, i: int)
    requires
        0 <= i < lines.len(),
    ensures
        read_lines(lines.take(i + 1)) == match read_lines(lines.take(i)) {
            Err(e) => Err(e),
            Ok(st) => read_step(st, lines[i], (i + 1) as nat),
        },
{
    assert(lines.take(i + 1).drop_last() =~= lines.take(i));
}

proof fn lemma_read_lines_error(lines: Seq<Seq<char>>, j: int)
    requires
        0 <= j <= lines.len(),
        read_lines(lines.take(j)) is Err,
    ensures
        read_lines(lines) == read_lines(lines.take(j)),
    decreases lines.len(),
{
    if j == lines.len() {
        assert(lines.take(j) =~= lines);
    } else {
        assert(lines.drop_last().take(j) =~= lines.take(j));
        lemma_read_lines_error(lines.drop_last(), j);
    }
}

/// A session's values, completed by the default ones, checked and made a setting.
fn complete_session(value: DynamicSessionSettingBuilder, default: &Option<DynamicSessionSettingBuilder>) -> (r: Result<
    SessionSetting,
    SessionSettingsError,
>)
    requires
        value.wf(),
        builder_wf(*default),
    ensures
        match session_outcome(completed(value@, builder_view(*default))) {
            Ok(v) => r matches Ok(s) && setting_is(s, v, schedule_in(v)),
            Err(f) => r matches Err(e) && failure_is(e, f),
        },
{
    let merged_values = match default {
        Some(d) => value.merge(d),
        None => value,
    };
    let validated = match merged_values.validate() {
        Ok(v) => v,
        Err(e) => {
            return Err(e);
        },
    };
    validated.build()
}

impl SessionSettings {
    /// The settings that the text `string` describes: a `[DEFAULT]` section
    /// whose values complete those of the `[SESSION]` sections after it, one
    /// setting per session section.
    pub fn from_string(string: &str) -> (r: Result<Self, SessionSettingsError>)
        ensures
            match settings_outcome(string@) {
                Ok(vs) => r matches Ok(s) && sessions_are(s.sessions@, vs),
                Err(f) => r matches Err(e) && failure_is(e, f),
            },
    {
        let ghost all = text_lines(string@);
        let lines = lines_of(string);
        let default_name = crate::text::str_chars("default");
        let session_name = crate::text::str_chars("session");
        let mut default_started = false;
        let mut default_ended = false;
        let mut last: Option<DynamicSessionSettingBuilder> = None;
        let mut default: Option<DynamicSessionSettingBuilder> = None;
        let mut settings: Vec<SessionSetting> = Vec::new();
        let ghost mut done: Seq<Seq<Option<Seq<char>>>> = Seq::empty();
        let mut i: usize = 0;
        assert(all.take(0) =~= Seq::<Seq<char>>::empty());
        while i < lines.len()
            invariant
                0 <= i <= lines@.len(),
                all == text_lines(string@),
                lines@.len() == all.len(),
                forall|k: int| 0 <= k < lines@.len() ==> (#[trigger] lines@[k])@ == all[k],
                default_name@ == "default"@,
                session_name@ == "session"@,
                builder_wf(last),
                builder_wf(default),
                read_lines(all.take(i as int)) == Ok::<ReadState, SettingsFailure>(
                    ReadState {
                        default_started,
                        default_ended,
                        last: builder_view(last),
                        default: builder_view(default),
                        sessions: done,
                    },
                ),
                sessions_are(settings@, done),
            decreases lines@.len() - i,
        {
            proof {
                lemma_read_lines_step(all, i as int);
            }
            let n = i + 1;
            let t = trim_chars(lines[i].as_slice(), true);
            let u = trim_chars(t.as_slice(), false);
            let is_default = chars_eq_ignore_case(u.as_slice(), default_name.as_slice());
            let is_session = chars_eq_ignore_case(u.as_slice(), session_name.as_slice());
            if t.len() > 0 && t[0] == '#' {
            } else if !default_started && !default_ended && is_default {
                last = Some(builder_of());
                default_started = true;
            } else if default_started && is_default {
                proof {
                    lemma_read_lines_error(all, i + 1);
                }
                return Err(SessionSettingsError::DefaultSectionAlreadyDefined);
            } else if default_started && !default_ended && is_session {
                default = last;
                last = Some(builder_of());
                default_ended = true;
            } else if default_started && default_ended && is_session {
                let prev = last;
                last = Some(builder_of());
                match prev {
                    Some(value) => {
                        match complete_session(value, &default) {
                            Ok(s) => {
                                settings.push(s);
                                proof {
                                    let w = completed(value@, builder_view(default));
                                    done = done.push(w);
                                }
                            },
                            Err(e) => {
                                proof {
                                    lemma_read_lines_error(all, i + 1);
                                }
                                return Err(e);
                            },
                        }
                    },
                    None => {},
                }
            } else {
                let cur = last;
                match cur {
                    Some(mut b) => {
                        let line = string_from_chars(t.as_slice());
                        let res = b.set_from_line(n, line.as_str());
                        last = Some(b);
                        match res {
                            Ok(()) => {},
                            Err(e) => {
                                proof {
                                    lemma_read_lines_error(all, i + 1);
                                }
                                return Err(e);
                            },
                        }
                    },
                    None => {
                        last = None;
                    },
                }
            }
            i = i + 1;
        }
        assert(all.take(i as int) =~= all);
        if default_started && default_ended {
            match last {
                Some(value) => {
                    match complete_session(value, &default) {
                        Ok(s) => {
                            settings.push(s);
                            proof {
                                let w = completed(value@, builder_view(default));
                                done = done.push(w);
                            }
                        },
                        Err(e) => {
                            return Err(e);
                        },
                    }
                },
                None => {},
            }
        }
        match default {
            None => Err(SessionSettingsError::NoDefaultSection),
            Some(_) => Ok(SessionSettings { sessions: settings }),
        }
    }

    /// The setting that best matches `session_id`: of those whose score is
    /// positive, the last with the highest score; none where every score is 0.
    pub fn for_session_id(&self, session_id: &SessionId) -> (r: Option<&SessionSetting>)
        ensures
            match r {
                None => forall|j: int|
                    0 <= j < self.sessions@.len() ==> setting_score(#[trigger] self.sessions@[j], *session_id) == 0,
                Some(s) => exists|i: int|
                    0 <= i < self.sessions@.len() && *s == self.sessions@[i] && setting_score(
                        #[trigger] self.sessions@[i],
                        *session_id,
                    ) > 0 && (forall|j: int|
                        0 <= j < self.sessions@.len() ==> setting_score(self.sessions@[j], *session_id)
                            <= setting_score(self.sessions@[i], *session_id)) && (forall|j: int|
                        i < j < self.sessions@.len() ==> setting_score(self.sessions@[j], *session_id)
                            < setting_score(self.sessions@[i], *session_id)),
            },
    {
        let mut best: Option<usize> = None;
        let mut best_score: u16 = 0;
        let mut i: usize = 0;
        while i < self.sessions.len()
            invariant
                i <= self.sessions@.len(),
                match best {
                    None => best_score == 0 && forall|j: int|
                        0 <= j < i ==> setting_score(#[trigger] self.sessions@[j], *session_id) == 0,
                    Some(b) => b < i && best_score == setting_score(self.sessions@[b as int], *session_id)
                        && best_score > 0 && (forall|j: int|
                        0 <= j < i ==> setting_score(#[trigger] self.sessions@[j], *session_id) <= best_score)
                        && (forall|j: int|
                        b < j < i ==> setting_score(#[trigger] self.sessions@[j], *session_id) < best_score),
                },
            decreases self.sessions@.len() - i,
        {
            let sc = self.sessions[i].score(session_id);
            if sc > 0 && sc >= best_score {
                best = Some(i);
                best_score = sc;
            }
            i = i + 1;
        }
        match best {
            None => None,
            Some(b) => {
                assert(setting_score(self.sessions@[b as int], *session_id) > 0);
                Some(&self.sessions[b])
            },
        }
    }

    /// The settings of the sessions.
    pub fn sessions(&self) -> (r: &Vec<SessionSetting>)
        ensures
            r@ == self.sessions@,
    {
        &self.sessions
    }
}

} // verus!
