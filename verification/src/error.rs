//! The error taxonomy that every capability call and every HTTP response can
//! surface. Each variant has a stable name used in the JSON envelope, and the
//! name maps back to the variant, so a client of the HTTP surface can always
//! recover the variant from a response.

use vstd::prelude::*;

verus! {

/// Every failure the fabric can report, wire-serializable.
///
/// `Success` is the reserved sentinel used in result envelopes for operations
/// that return no payload.
#[derive(Clone, Debug)]
pub enum ShadowError {
    CallError(String),
    ConnectError(String),
    SystemPowerError,
    ClientNotFound,
    QueryAppsError(String),
    QueryFilesError(String, String),
    AccessDenied,
    GetCapturableContentError(String),
    NoSuchDisplay,
    Unsupported,
    IoError(String),
    NoPrivateKey,
    Success,
    NoOp,
    AddressInvalid,
    DisconnectError,
    UnknownError,
    GetDisplayError(String),
    ProcessNotFound(String),
    ParamInvalid(String),
    AddrParseError(String),
    RequestError(String, String),
    StopFailed,
    KillProcessError(String),
    DnsLookupError(String),
}

/// The variant of an error, with the carried detail strings forgotten.
/// This is what the envelope's `error` field identifies.
#[derive(Clone, Copy, PartialEq, Eq, Structural, Debug)]
pub enum ErrorKind {
    CallError,
    ConnectError,
    SystemPowerError,
    ClientNotFound,
    QueryAppsError,
    QueryFilesError,
    AccessDenied,
    GetCapturableContentError,
    NoSuchDisplay,
    Unsupported,
    IoError,
    NoPrivateKey,
    Success,
    NoOp,
    AddressInvalid,
    DisconnectError,
    UnknownError,
    GetDisplayError,
    ProcessNotFound,
    ParamInvalid,
    AddrParseError,
    RequestError,
    StopFailed,
    KillProcessError,
    DnsLookupError,
}

impl ShadowError {
    /// The variant of this error.
    pub open spec fn spec_kind(&self) -> ErrorKind {
        match self {
            ShadowError::CallError(_) => ErrorKind::CallError,
            ShadowError::ConnectError(_) => ErrorKind::ConnectError,
            ShadowError::SystemPowerError => ErrorKind::SystemPowerError,
            ShadowError::ClientNotFound => ErrorKind::ClientNotFound,
            ShadowError::QueryAppsError(_) => ErrorKind::QueryAppsError,
            ShadowError::QueryFilesError(_, _) => ErrorKind::QueryFilesError,
            ShadowError::AccessDenied => ErrorKind::AccessDenied,
            ShadowError::GetCapturableContentError(_) => ErrorKind::GetCapturableContentError,
            ShadowError::NoSuchDisplay => ErrorKind::NoSuchDisplay,
            ShadowError::Unsupported => ErrorKind::Unsupported,
            ShadowError::IoError(_) => ErrorKind::IoError,
            ShadowError::NoPrivateKey => ErrorKind::NoPrivateKey,
            ShadowError::Success => ErrorKind::Success,
            ShadowError::NoOp => ErrorKind::NoOp,
            ShadowError::AddressInvalid => ErrorKind::AddressInvalid,
            ShadowError::DisconnectError => ErrorKind::DisconnectError,
            ShadowError::UnknownError => ErrorKind::UnknownError,
            ShadowError::GetDisplayError(_) => ErrorKind::GetDisplayError,
            ShadowError::ProcessNotFound(_) => ErrorKind::ProcessNotFound,
            ShadowError::ParamInvalid(_) => ErrorKind::ParamInvalid,
            ShadowError::AddrParseError(_) => ErrorKind::AddrParseError,
            ShadowError::RequestError(_, _) => ErrorKind::RequestError,
            ShadowError::StopFailed => ErrorKind::StopFailed,
            ShadowError::KillProcessError(_) => ErrorKind::KillProcessError,
            ShadowError::DnsLookupError(_) => ErrorKind::DnsLookupError,
        }
    }

    /// The variant of this error, as an executable function.
    pub fn kind(&self) -> (k: ErrorKind)
        ensures
            k == self.spec_kind(),
    {
        match self {
            ShadowError::CallError(_) => ErrorKind::CallError,
            ShadowError::ConnectError(_) => ErrorKind::ConnectError,
            ShadowError::SystemPowerError => ErrorKind::SystemPowerError,
            ShadowError::ClientNotFound => ErrorKind::ClientNotFound,
            ShadowError::QueryAppsError(_) => ErrorKind::QueryAppsError,
            ShadowError::QueryFilesError(_, _) => ErrorKind::QueryFilesError,
            ShadowError::AccessDenied => ErrorKind::AccessDenied,
            ShadowError::GetCapturableContentError(_) => ErrorKind::GetCapturableContentError,
            ShadowError::NoSuchDisplay => ErrorKind::NoSuchDisplay,
            ShadowError::Unsupported => ErrorKind::Unsupported,
            ShadowError::IoError(_) => ErrorKind::IoError,
            ShadowError::NoPrivateKey => ErrorKind::NoPrivateKey,
            ShadowError::Success => ErrorKind::Success,
            ShadowError::NoOp => ErrorKind::NoOp,
            ShadowError::AddressInvalid => ErrorKind::AddressInvalid,
            ShadowError::DisconnectError => ErrorKind::DisconnectError,
            ShadowError::UnknownError => ErrorKind::UnknownError,
            ShadowError::GetDisplayError(_) => ErrorKind::GetDisplayError,
            ShadowError::ProcessNotFound(_) => ErrorKind::ProcessNotFound,
            ShadowError::ParamInvalid(_) => ErrorKind::ParamInvalid,
            ShadowError::AddrParseError(_) => ErrorKind::AddrParseError,
            ShadowError::RequestError(_, _) => ErrorKind::RequestError,
            ShadowError::StopFailed => ErrorKind::StopFailed,
            ShadowError::KillProcessError(_) => ErrorKind::KillProcessError,
            ShadowError::DnsLookupError(_) => ErrorKind::DnsLookupError,
        }
    }
}

/// The stable wire name of an error variant, as it appears in the `error`
/// field of the HTTP envelope.
pub open spec fn spec_kind_name(k: ErrorKind) -> Seq<char> {
    match k {
        ErrorKind::CallError => "CallError"@,
        ErrorKind::ConnectError => "ConnectError"@,
        ErrorKind::SystemPowerError => "SystemPowerError"@,
        ErrorKind::ClientNotFound => "ClientNotFound"@,
        ErrorKind::QueryAppsError => "QueryAppsError"@,
        ErrorKind::QueryFilesError => "QueryFilesError"@,
        ErrorKind::AccessDenied => "AccessDenied"@,
        ErrorKind::GetCapturableContentError => "GetCapturableContentError"@,
        ErrorKind::NoSuchDisplay => "NoSuchDisplay"@,
        ErrorKind::Unsupported => "Unsupported"@,
        ErrorKind::IoError => "IoError"@,
        ErrorKind::NoPrivateKey => "NoPrivateKey"@,
        ErrorKind::Success => "Success"@,
        ErrorKind::NoOp => "NoOp"@,
        ErrorKind::AddressInvalid => "AddressInvalid"@,
        ErrorKind::DisconnectError => "DisconnectError"@,
        ErrorKind::UnknownError => "UnknownError"@,
        ErrorKind::GetDisplayError => "GetDisplayError"@,
        ErrorKind::ProcessNotFound => "ProcessNotFound"@,
        ErrorKind::ParamInvalid => "ParamInvalid"@,
        ErrorKind::AddrParseError => "AddrParseError"@,
        ErrorKind::RequestError => "RequestError"@,
        ErrorKind::StopFailed => "StopFailed"@,
        ErrorKind::KillProcessError => "KillProcessError"@,
        ErrorKind::DnsLookupError => "DnsLookupError"@,
    }
}

/// The wire name of an error variant.
pub fn kind_name(k: ErrorKind) -> (r: String)
    ensures
        r@ == spec_kind_name(k),
{
    match k {
        ErrorKind::CallError => String::from_str("CallError"),
        ErrorKind::ConnectError => String::from_str("ConnectError"),
        ErrorKind::SystemPowerError => String::from_str("SystemPowerError"),
        ErrorKind::ClientNotFound => String::from_str("ClientNotFound"),
        ErrorKind::QueryAppsError => String::from_str("QueryAppsError"),
        ErrorKind::QueryFilesError => String::from_str("QueryFilesError"),
        ErrorKind::AccessDenied => String::from_str("AccessDenied"),
        ErrorKind::GetCapturableContentError => String::from_str("GetCapturableContentError"),
        ErrorKind::NoSuchDisplay => String::from_str("NoSuchDisplay"),
        ErrorKind::Unsupported => String::from_str("Unsupported"),
        ErrorKind::IoError => String::from_str("IoError"),
        ErrorKind::NoPrivateKey => String::from_str("NoPrivateKey"),
        ErrorKind::Success => String::from_str("Success"),
        ErrorKind::NoOp => String::from_str("NoOp"),
        ErrorKind::AddressInvalid => String::from_str("AddressInvalid"),
        ErrorKind::DisconnectError => String::from_str("DisconnectError"),
        ErrorKind::UnknownError => String::from_str("UnknownError"),
        ErrorKind::GetDisplayError => String::from_str("GetDisplayError"),
        ErrorKind::ProcessNotFound => String::from_str("ProcessNotFound"),
        ErrorKind::ParamInvalid => String::from_str("ParamInvalid"),
        ErrorKind::AddrParseError => String::from_str("AddrParseError"),
        ErrorKind::RequestError => String::from_str("RequestError"),
        ErrorKind::StopFailed => String::from_str("StopFailed"),
        ErrorKind::KillProcessError => String::from_str("KillProcessError"),
        ErrorKind::DnsLookupError => String::from_str("DnsLookupError"),
    }
}

/// The variant named by a wire name, if any: the inverse of `kind_name`.
pub open spec fn spec_parse_kind_name(s: Seq<char>) -> Option<ErrorKind> {
    if s == spec_kind_name(ErrorKind::CallError) { Some(ErrorKind::CallError) }
    else if s == spec_kind_name(ErrorKind::ConnectError) { Some(ErrorKind::ConnectError) }
    else if s == spec_kind_name(ErrorKind::SystemPowerError) { Some(ErrorKind::SystemPowerError) }
    else if s == spec_kind_name(ErrorKind::ClientNotFound) { Some(ErrorKind::ClientNotFound) }
    else if s == spec_kind_name(ErrorKind::QueryAppsError) { Some(ErrorKind::QueryAppsError) }
    else if s == spec_kind_name(ErrorKind::QueryFilesError) { Some(ErrorKind::QueryFilesError) }
    else if s == spec_kind_name(ErrorKind::AccessDenied) { Some(ErrorKind::AccessDenied) }
    else if s == spec_kind_name(ErrorKind::GetCapturableContentError) { Some(ErrorKind::GetCapturableContentError) }
    else if s == spec_kind_name(ErrorKind::NoSuchDisplay) { Some(ErrorKind::NoSuchDisplay) }
    else if s == spec_kind_name(ErrorKind::Unsupported) { Some(ErrorKind::Unsupported) }
    else if s == spec_kind_name(ErrorKind::IoError) { Some(ErrorKind::IoError) }
    else if s == spec_kind_name(ErrorKind::NoPrivateKey) { Some(ErrorKind::NoPrivateKey) }
    else if s == spec_kind_name(ErrorKind::Success) { Some(ErrorKind::Success) }
    else if s == spec_kind_name(ErrorKind::NoOp) { Some(ErrorKind::NoOp) }
    else if s == spec_kind_name(ErrorKind::AddressInvalid) { Some(ErrorKind::AddressInvalid) }
    else if s == spec_kind_name(ErrorKind::DisconnectError) { Some(ErrorKind::DisconnectError) }
    else if s == spec_kind_name(ErrorKind::UnknownError) { Some(ErrorKind::UnknownError) }
    else if s == spec_kind_name(ErrorKind::GetDisplayError) { Some(ErrorKind::GetDisplayError) }
    else if s == spec_kind_name(ErrorKind::ProcessNotFound) { Some(ErrorKind::ProcessNotFound) }
    else if s == spec_kind_name(ErrorKind::ParamInvalid) { Some(ErrorKind::ParamInvalid) }
    else if s == spec_kind_name(ErrorKind::AddrParseError) { Some(ErrorKind::AddrParseError) }
    else if s == spec_kind_name(ErrorKind::RequestError) { Some(ErrorKind::RequestError) }
    else if s == spec_kind_name(ErrorKind::StopFailed) { Some(ErrorKind::StopFailed) }
    else if s == spec_kind_name(ErrorKind::KillProcessError) { Some(ErrorKind::KillProcessError) }
    else if s == spec_kind_name(ErrorKind::DnsLookupError) { Some(ErrorKind::DnsLookupError) }
    else { None }
}

/// Recover the error variant from its wire name.
pub fn parse_kind_name(s: &str) -> (r: Option<ErrorKind>)
    ensures
        r == spec_parse_kind_name(s@),
{
    if crate::text::str_eq(s, "CallError") { Some(ErrorKind::CallError) }
    else if crate::text::str_eq(s, "ConnectError") { Some(ErrorKind::ConnectError) }
    else if crate::text::str_eq(s, "SystemPowerError") { Some(ErrorKind::SystemPowerError) }
    else if crate::text::str_eq(s, "ClientNotFound") { Some(ErrorKind::ClientNotFound) }
    else if crate::text::str_eq(s, "QueryAppsError") { Some(ErrorKind::QueryAppsError) }
    else if crate::text::str_eq(s, "QueryFilesError") { Some(ErrorKind::QueryFilesError) }
    else if crate::text::str_eq(s, "AccessDenied") { Some(ErrorKind::AccessDenied) }
    else if crate::text::str_eq(s, "GetCapturableContentError") { Some(ErrorKind::GetCapturableContentError) }
    else if crate::text::str_eq(s, "NoSuchDisplay") { Some(ErrorKind::NoSuchDisplay) }
    else if crate::text::str_eq(s, "Unsupported") { Some(ErrorKind::Unsupported) }
    else if crate::text::str_eq(s, "IoError") { Some(ErrorKind::IoError) }
    else if crate::text::str_eq(s, "NoPrivateKey") { Some(ErrorKind::NoPrivateKey) }
    else if crate::text::str_eq(s, "Success") { Some(ErrorKind::Success) }
    else if crate::text::str_eq(s, "NoOp") { Some(ErrorKind::NoOp) }
    else if crate::text::str_eq(s, "AddressInvalid") { Some(ErrorKind::AddressInvalid) }
    else if crate::text::str_eq(s, "DisconnectError") { Some(ErrorKind::DisconnectError) }
    else if crate::text::str_eq(s, "UnknownError") { Some(ErrorKind::UnknownError) }
    else if crate::text::str_eq(s, "GetDisplayError") { Some(ErrorKind::GetDisplayError) }
    else if crate::text::str_eq(s, "ProcessNotFound") { Some(ErrorKind::ProcessNotFound) }
    else if crate::text::str_eq(s, "ParamInvalid") { Some(ErrorKind::ParamInvalid) }
    else if crate::text::str_eq(s, "AddrParseError") { Some(ErrorKind::AddrParseError) }
    else if crate::text::str_eq(s, "RequestError") { Some(ErrorKind::RequestError) }
    else if crate::text::str_eq(s, "StopFailed") { Some(ErrorKind::StopFailed) }
    else if crate::text::str_eq(s, "KillProcessError") { Some(ErrorKind::KillProcessError) }
    else if crate::text::str_eq(s, "DnsLookupError") { Some(ErrorKind::DnsLookupError) }
    else { None }
}

/// Every error's wire name maps back to the variant it came from: an HTTP
/// error envelope built by this library is always parseable by the library's
/// own error types.
pub proof fn lemma_kind_name_round_trip(k: ErrorKind)
    ensures
        spec_parse_kind_name(spec_kind_name(k)) == Some(k),
{
    reveal_strlit("CallError");
    reveal_strlit("ConnectError");
    reveal_strlit("SystemPowerError");
    reveal_strlit("ClientNotFound");
    reveal_strlit("QueryAppsError");
    reveal_strlit("QueryFilesError");
    reveal_strlit("AccessDenied");
    reveal_strlit("GetCapturableContentError");
    reveal_strlit("NoSuchDisplay");
    reveal_strlit("Unsupported");
    reveal_strlit("IoError");
    reveal_strlit("NoPrivateKey");
    reveal_strlit("Success");
    reveal_strlit("NoOp");
    reveal_strlit("AddressInvalid");
    reveal_strlit("DisconnectError");
    reveal_strlit("UnknownError");
    reveal_strlit("GetDisplayError");
    reveal_strlit("ProcessNotFound");
    reveal_strlit("ParamInvalid");
    reveal_strlit("AddrParseError");
    reveal_strlit("RequestError");
    reveal_strlit("StopFailed");
    reveal_strlit("KillProcessError");
    reveal_strlit("DnsLookupError");
    assert("CallError"@.len() == 9);
    assert("ConnectError"@.len() == 12);
    assert("SystemPowerError"@.len() == 16);
    assert("ClientNotFound"@.len() == 14);
    assert("QueryAppsError"@.len() == 14);
    assert("QueryFilesError"@.len() == 15);
    assert("AccessDenied"@.len() == 12);
    assert("GetCapturableContentError"@.len() == 25);
    assert("NoSuchDisplay"@.len() == 13);
    assert("Unsupported"@.len() == 11);
    assert("IoError"@.len() == 7);
    assert("NoPrivateKey"@.len() == 12);
    assert("Success"@.len() == 7);
    assert("NoOp"@.len() == 4);
    assert("AddressInvalid"@.len() == 14);
    assert("DisconnectError"@.len() == 15);
    assert("UnknownError"@.len() == 12);
    assert("GetDisplayError"@.len() == 15);
    assert("ProcessNotFound"@.len() == 15);
    assert("ParamInvalid"@.len() == 12);
    assert("AddrParseError"@.len() == 14);
    assert("RequestError"@.len() == 12);
    assert("StopFailed"@.len() == 10);
    assert("KillProcessError"@.len() == 16);
    assert("DnsLookupError"@.len() == 14);
    assert("CallError"@[0] == 'C');
    assert("ConnectError"@[0] == 'C');
    assert("SystemPowerError"@[0] == 'S');
    assert("ClientNotFound"@[0] == 'C');
    assert("QueryAppsError"@[0] == 'Q');
    assert("QueryFilesError"@[0] == 'Q');
    assert("AccessDenied"@[0] == 'A');
    assert("GetCapturableContentError"@[0] == 'G');
    assert("NoSuchDisplay"@[0] == 'N');
    assert("Unsupported"@[0] == 'U');
    assert("IoError"@[0] == 'I');
    assert("NoPrivateKey"@[0] == 'N');
    assert("Success"@[0] == 'S');
    assert("NoOp"@[0] == 'N');
    assert("AddressInvalid"@[0] == 'A');
    assert("DisconnectError"@[0] == 'D');
    assert("UnknownError"@[0] == 'U');
    assert("GetDisplayError"@[0] == 'G');
    assert("ProcessNotFound"@[0] == 'P');
    assert("ParamInvalid"@[0] == 'P');
    assert("AddrParseError"@[0] == 'A');
    assert("RequestError"@[0] == 'R');
    assert("StopFailed"@[0] == 'S');
    assert("KillProcessError"@[0] == 'K');
    assert("DnsLookupError"@[0] == 'D');
    assert("AddressInvalid"@[4] == 'e');
    assert("AddrParseError"@[4] == 'P');
}

} // verus!
