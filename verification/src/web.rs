//! The HTTP dispatch core: the response envelope, the error→status table,
//! and the checkpoint every `/v1/client/<addr>/…` request passes through.

use vstd::prelude::*;
use vstd::string::StringSliceAdditionalSpecFns;
use crate::addr::SocketAddress;
use crate::error::ErrorKind;
use crate::error::ShadowError;
use crate::error::kind_name;
use crate::error::spec_kind_name;
use crate::registry::AddrMap;

verus! {

/// The JSON envelope of every non-payload response: the error variant's
/// wire name, and a human-readable detail.
pub struct Error {
    pub error: String,
    pub message: String,
}

/// The coarse error surface of the legacy operator endpoints.
#[derive(Clone, Copy, PartialEq, Eq, Structural, Debug)]
pub enum WebError {
    Success,
    ClientNotFound,
    NoOp,
    UnknownError,
}

/// The HTTP status an error variant maps to: success is 200, a missing
/// session is 404, everything else is a 400 with the envelope. No variant
/// ever maps to a server error.
pub fn status_for(k: ErrorKind) -> (r: u16)
    ensures
        k == ErrorKind::Success ==> r == 200,
        k == ErrorKind::ClientNotFound ==> r == 404,
        (k != ErrorKind::Success && k != ErrorKind::ClientNotFound) ==> r == 400,
        r == 200 || r == 404 || r == 400,
{
    match k {
        ErrorKind::Success => 200,
        ErrorKind::ClientNotFound => 404,
        _ => 400,
    }
}

/// The envelope for an error, carrying its wire name and a detail message.
pub fn error_envelope(e: &ShadowError, message: String) -> (r: Error)
    ensures
        r.error@ == spec_kind_name(e.spec_kind()),
        r.message == message,
{
    Error { error: kind_name(e.kind()), message }
}

/// The envelope of an operation that succeeded without a payload.
pub fn success() -> (r: (u16, Error))
    ensures
        r.0 == 200,
        r.1.error@ == spec_kind_name(ErrorKind::Success),
{
    (
        200,
        Error {
            error: kind_name(ErrorKind::Success),
            message: String::from_str("perform completed successfully"),
        },
    )
}

/// A parameter that an operation needs: present, or refused as
/// `ParamInvalid` naming the missing piece.
pub fn require<T>(opt: Option<T>, description: &str) -> (r: Result<T, ShadowError>)
    ensures
        opt matches Some(v) ==> (r matches Ok(x) && x == v),
        opt is None ==> (r matches Err(e) && (e matches ShadowError::ParamInvalid(m) && m@
            == description@ + " not provided"@)),
{
    match opt {
        Some(v) => Ok(v),
        None => Err(ShadowError::ParamInvalid(String::from_str(description).concat(
            " not provided",
        ))),
    }
}

/// The checkpoint of every `/v1/client/<addr>/…` request, handed the raw
/// address text beside its parse outcome. A syntactically invalid address
/// is a 400 with `AddressInvalid` echoing the offending text; a well-formed
/// address with no live session is a 404 with `ClientNotFound` naming the
/// address; otherwise the session's shared record is handed to the
/// operation.
pub fn resolve_client<'a, V>(
    reg: &'a AddrMap<V>,
    addr_text: &str,
    addr: Option<SocketAddress>,
) -> (r: Result<&'a V, (u16, Error)>)
    requires
        reg.wf(),
    ensures
        addr is None ==> (r matches Err(p) && p.0 == 400 && p.1.error@ == spec_kind_name(
            ErrorKind::AddressInvalid,
        ) && p.1.message@ == addr_text@),
        addr matches Some(a) ==> (!reg.view().contains_key(a) ==> (r matches Err(p) && p.0 == 404
            && p.1.error@ == spec_kind_name(ErrorKind::ClientNotFound) && vstd::utf8::encode_utf8(
            p.1.message@,
        ) == crate::addr::spec_render_addr(a))),
        addr matches Some(a) ==> (reg.view().contains_key(a) ==> (r matches Ok(v) && *v
            == reg.view()[a])),
{
    match addr {
        None => Err(
            (
                400,
                Error {
                    error: kind_name(ErrorKind::AddressInvalid),
                    message: String::from_str(addr_text),
                },
            ),
        ),
        Some(a) => match reg.get(a) {
            Some(v) => Ok(v),
            None => Err(
                (
                    404,
                    Error {
                        error: kind_name(ErrorKind::ClientNotFound),
                        message: crate::addr::render_socket_address(&a),
                    },
                ),
            ),
        },
    }
}

/// The envelope of a request whose operation string named no operation: a
/// missing or unknown operation is a malformed parameter set.
pub fn unknown_op_envelope(message: String) -> (r: (u16, Error))
    ensures
        r.0 == 400,
        r.1.error@ == spec_kind_name(ErrorKind::ParamInvalid),
        r.1.message == message,
{
    (400, Error { error: kind_name(ErrorKind::ParamInvalid), message })
}

/// The envelope of an operation that failed: its variant's wire name under
/// the status the table assigns.
pub fn failure_envelope(e: &ShadowError, message: String) -> (r: (u16, Error))
    ensures
        r.0 == 200 || r.0 == 400 || r.0 == 404,
        r.0 == 200 <==> e.spec_kind() == ErrorKind::Success,
        r.0 == 404 <==> e.spec_kind() == ErrorKind::ClientNotFound,
        r.1.error@ == spec_kind_name(e.spec_kind()),
        r.1.message == message,
{
    let k = e.kind();
    (status_for(k), error_envelope(e, message))
}

} // verus!
