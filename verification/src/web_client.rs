//! The per-client HTTP operations: their parameter records, the
//! case-insensitive operation grammar, and the plan each request resolves
//! to before the capability call is made.

use vstd::prelude::*;
use vstd::string::StringSliceAdditionalSpecFns;
use crate::error::ErrorKind;
use crate::error::ShadowError;
use crate::text::case_insensitive_eq;
use crate::text::str_eq_ignore_ascii_case;
use crate::addr::SocketAddress;
use crate::types::SystemInfo;
use crate::types::SystemPowerAction;

verus! {

/// The query operations on one client.
#[derive(Clone, Copy, PartialEq, Eq, Structural, Debug)]
pub enum QueryOperation {
    Summary,
}

/// Parameters of `GET /v1/client/<addr>/query`.
pub struct Query {
    pub op: String,
}

/// The app operations on one client.
#[derive(Clone, Copy, PartialEq, Eq, Structural, Debug)]
pub enum AppOperation {
    Enumerate,
}

/// Parameters of `POST /v1/client/<addr>/app`.
pub struct App {
    pub op: String,
}

/// The display operations on one client.
#[derive(Clone, Copy, PartialEq, Eq, Structural, Debug)]
pub enum DisplayOperation {
    Enumerate,
}

/// The file operations on one client.
#[derive(Clone, Copy, PartialEq, Eq, Structural, Debug)]
pub enum FileOperation {
    Enumerate,
    Read,
    Create,
    Write,
    DeleteFile,
    DeleteDir,
    Open,
}

/// Parameters of `POST /v1/client/<addr>/file`.
pub struct File {
    pub op: String,
    pub path: String,
    pub content: Option<Vec<u8>>,
    pub dir: Option<bool>,
}

/// Parameters of `POST /v1/client/<addr>/power`.
pub struct Power {
    pub op: String,
}

/// The process operations on one client.
#[derive(Clone, Copy, PartialEq, Eq, Structural, Debug)]
pub enum ProcessOperation {
    Enumerate,
    Kill,
}

/// Parameters of `POST /v1/client/<addr>/process`.
pub struct Process {
    pub op: String,
    pub pid: Option<u32>,
}

/// The proxy operations on one client.
#[derive(Clone, Copy, PartialEq, Eq, Structural, Debug)]
pub enum ProxyOperation {
    Open,
    Close,
}

/// The proxy protocols the operator can front.
#[derive(Clone, Copy, PartialEq, Eq, Structural, Debug)]
pub enum ProxyType {
    Socks5,
}

/// Parameters of `POST /v1/client/<addr>/proxy`.
pub struct Proxy {
    pub op: String,
    pub proxy_type: String,
    pub addr: String,
    pub port: u16,
    pub user: String,
    pub password: String,
}

/// The listen address a proxy request falls back to.
pub fn default_addr() -> (r: String)
    ensures
        r@ == "0.0.0.0"@,
{
    String::from_str("0.0.0.0")
}

/// The listen port a proxy request falls back to.
pub fn default_port() -> (r: u16)
    ensures
        r == 9999,
{
    9999
}

/// The SOCKS5 user a proxy request falls back to.
pub fn default_user() -> (r: String)
    ensures
        r@ == "mitsuha"@,
{
    String::from_str("mitsuha")
}

/// The SOCKS5 password a proxy request falls back to.
pub fn default_password() -> (r: String)
    ensures
        r@ == "miyamizu"@,
{
    String::from_str("miyamizu")
}

/// Whether `s` names the operation spelled `lit`, compared without regard
/// to ASCII case.
pub open spec fn spec_op_is(s: &str, lit: &str) -> bool {
    case_insensitive_eq(s.spec_bytes(), lit.spec_bytes())
}

/// The client query operation named by `s`.
pub fn parse_query_operation(s: &str) -> (r: Option<QueryOperation>)
    ensures
        r == (if spec_op_is(s, "Summary") {
            Some(QueryOperation::Summary)
        } else {
            None::<QueryOperation>
        }),
{
    if str_eq_ignore_ascii_case(s, "Summary") {
        Some(QueryOperation::Summary)
    } else {
        None
    }
}

/// The app operation named by `s`.
pub fn parse_app_operation(s: &str) -> (r: Option<AppOperation>)
    ensures
        r == (if spec_op_is(s, "Enumerate") {
            Some(AppOperation::Enumerate)
        } else {
            None::<AppOperation>
        }),
{
    if str_eq_ignore_ascii_case(s, "Enumerate") {
        Some(AppOperation::Enumerate)
    } else {
        None
    }
}

/// The display operation named by `s`.
pub fn parse_display_operation(s: &str) -> (r: Option<DisplayOperation>)
    ensures
        r == (if spec_op_is(s, "Enumerate") {
            Some(DisplayOperation::Enumerate)
        } else {
            None::<DisplayOperation>
        }),
{
    if str_eq_ignore_ascii_case(s, "Enumerate") {
        Some(DisplayOperation::Enumerate)
    } else {
        None
    }
}

/// The file operation named by `s`.
pub fn parse_file_operation(s: &str) -> (r: Option<FileOperation>)
    ensures
        r == (if spec_op_is(s, "Enumerate") {
            Some(FileOperation::Enumerate)
        } else if spec_op_is(s, "Read") {
            Some(FileOperation::Read)
        } else if spec_op_is(s, "Create") {
            Some(FileOperation::Create)
        } else if spec_op_is(s, "Write") {
            Some(FileOperation::Write)
        } else if spec_op_is(s, "DeleteFile") {
            Some(FileOperation::DeleteFile)
        } else if spec_op_is(s, "DeleteDir") {
            Some(FileOperation::DeleteDir)
        } else if spec_op_is(s, "Open") {
            Some(FileOperation::Open)
        } else {
            None::<FileOperation>
        }),
{
    if str_eq_ignore_ascii_case(s, "Enumerate") {
        Some(FileOperation::Enumerate)
    } else if str_eq_ignore_ascii_case(s, "Read") {
        Some(FileOperation::Read)
    } else if str_eq_ignore_ascii_case(s, "Create") {
        Some(FileOperation::Create)
    } else if str_eq_ignore_ascii_case(s, "Write") {
        Some(FileOperation::Write)
    } else if str_eq_ignore_ascii_case(s, "DeleteFile") {
        Some(FileOperation::DeleteFile)
    } else if str_eq_ignore_ascii_case(s, "DeleteDir") {
        Some(FileOperation::DeleteDir)
    } else if str_eq_ignore_ascii_case(s, "Open") {
        Some(FileOperation::Open)
    } else {
        None
    }
}

/// The power action named by `s`.
pub fn parse_power_operation(s: &str) -> (r: Option<SystemPowerAction>)
    ensures
        r == (if spec_op_is(s, "Shutdown") {
            Some(SystemPowerAction::Shutdown)
        } else if spec_op_is(s, "Reboot") {
            Some(SystemPowerAction::Reboot)
        } else if spec_op_is(s, "Logout") {
            Some(SystemPowerAction::Logout)
        } else if spec_op_is(s, "Sleep") {
            Some(SystemPowerAction::Sleep)
        } else if spec_op_is(s, "Hibernate") {
            Some(SystemPowerAction::Hibernate)
        } else {
            None::<SystemPowerAction>
        }),
{
    if str_eq_ignore_ascii_case(s, "Shutdown") {
        Some(SystemPowerAction::Shutdown)
    } else if str_eq_ignore_ascii_case(s, "Reboot") {
        Some(SystemPowerAction::Reboot)
    } else if str_eq_ignore_ascii_case(s, "Logout") {
        Some(SystemPowerAction::Logout)
    } else if str_eq_ignore_ascii_case(s, "Sleep") {
        Some(SystemPowerAction::Sleep)
    } else if str_eq_ignore_ascii_case(s, "Hibernate") {
        Some(SystemPowerAction::Hibernate)
    } else {
        None
    }
}

/// The process operation named by `s`.
pub fn parse_process_operation(s: &str) -> (r: Option<ProcessOperation>)
    ensures
        r == (if spec_op_is(s, "Enumerate") {
            Some(ProcessOperation::Enumerate)
        } else if spec_op_is(s, "Kill") {
            Some(ProcessOperation::Kill)
        } else {
            None::<ProcessOperation>
        }),
{
    if str_eq_ignore_ascii_case(s, "Enumerate") {
        Some(ProcessOperation::Enumerate)
    } else if str_eq_ignore_ascii_case(s, "Kill") {
        Some(ProcessOperation::Kill)
    } else {
        None
    }
}

/// The proxy operation named by `s`.
pub fn parse_proxy_operation(s: &str) -> (r: Option<ProxyOperation>)
    ensures
        r == (if spec_op_is(s, "Open") {
            Some(ProxyOperation::Open)
        } else if spec_op_is(s, "Close") {
            Some(ProxyOperation::Close)
        } else {
            None::<ProxyOperation>
        }),
{
    if str_eq_ignore_ascii_case(s, "Open") {
        Some(ProxyOperation::Open)
    } else if str_eq_ignore_ascii_case(s, "Close") {
        Some(ProxyOperation::Close)
    } else {
        None
    }
}

/// The proxy protocol named by `s`.
pub fn parse_proxy_type(s: &str) -> (r: Option<ProxyType>)
    ensures
        r == (if spec_op_is(s, "Socks5") {
            Some(ProxyType::Socks5)
        } else {
            None::<ProxyType>
        }),
{
    if str_eq_ignore_ascii_case(s, "Socks5") {
        Some(ProxyType::Socks5)
    } else {
        None
    }
}

/// What a file request asks the agent to do, once its parameters are
/// checked.
pub enum FileAction {
    Enumerate,
    Read,
    CreateFile,
    CreateDir,
    Write(Vec<u8>),
    DeleteFile,
    DeleteDir,
    Open,
}

/// Check a file request's parameters and resolve the action: `Write`
/// demands content, `Create` makes a directory exactly when `dir` says so.
pub fn plan_file_action(op: FileOperation, content: Option<Vec<u8>>, dir: Option<bool>) -> (r:
    Result<FileAction, ShadowError>)
    ensures
        op == FileOperation::Enumerate ==> (r matches Ok(a) && a is Enumerate),
        op == FileOperation::Read ==> (r matches Ok(a) && a is Read),
        (op == FileOperation::Create && dir == Some(true)) ==> (r matches Ok(a) && a is CreateDir),
        (op == FileOperation::Create && dir != Some(true)) ==> (r matches Ok(a) && a is CreateFile),
        (op == FileOperation::Write && content is None) ==> (r matches Err(e) && (e
            matches ShadowError::ParamInvalid(m) && m@ == "file content"@ + " not provided"@)),
        content matches Some(c) ==> (op == FileOperation::Write ==> (r matches Ok(a) && (
        a matches FileAction::Write(w) && w == c))),
        op == FileOperation::DeleteFile ==> (r matches Ok(a) && a is DeleteFile),
        op == FileOperation::DeleteDir ==> (r matches Ok(a) && a is DeleteDir),
        op == FileOperation::Open ==> (r matches Ok(a) && a is Open),
{
    match op {
        FileOperation::Enumerate => Ok(FileAction::Enumerate),
        FileOperation::Read => Ok(FileAction::Read),
        FileOperation::Create => {
            let make_dir = match dir {
                Some(d) => d,
                None => false,
            };
            if make_dir {
                Ok(FileAction::CreateDir)
            } else {
                Ok(FileAction::CreateFile)
            }
        },
        FileOperation::Write => {
            let c = crate::web::require(content, "file content")?;
            Ok(FileAction::Write(c))
        },
        FileOperation::DeleteFile => Ok(FileAction::DeleteFile),
        FileOperation::DeleteDir => Ok(FileAction::DeleteDir),
        FileOperation::Open => Ok(FileAction::Open),
    }
}

/// What a process request asks the agent to do.
pub enum ProcessAction {
    Enumerate,
    Kill(u32),
}

/// Check a process request's parameters: `Kill` demands a pid.
pub fn plan_process_action(op: ProcessOperation, pid: Option<u32>) -> (r: Result<
    ProcessAction,
    ShadowError,
>)
    ensures
        op == ProcessOperation::Enumerate ==> (r matches Ok(a) && a is Enumerate),
        pid matches Some(p) ==> (op == ProcessOperation::Kill ==> (r matches Ok(a) && (
        a matches ProcessAction::Kill(q) && q == p))),
        (op == ProcessOperation::Kill && pid is None) ==> (r matches Err(e) && (e
            matches ShadowError::ParamInvalid(m) && m@ == "process id"@ + " not provided"@)),
{
    match op {
        ProcessOperation::Enumerate => Ok(ProcessAction::Enumerate),
        ProcessOperation::Kill => {
            let p = crate::web::require(pid, "process id")?;
            Ok(ProcessAction::Kill(p))
        },
    }
}


/// Check a proxy request's parameters and resolve the action: the protocol
/// must be one the operator fronts, and the listen text must have parsed
/// to an address. The listen text is echoed when its parse failed.
pub fn plan_proxy_request(
    op: ProxyOperation,
    proxy_type: &str,
    listen: Option<SocketAddress>,
    listen_text: &str,
) -> (r: Result<(ProxyOperation, SocketAddress), ShadowError>)
    ensures
        !spec_op_is(proxy_type, "Socks5") ==> (r matches Err(e) && (e
            matches ShadowError::ParamInvalid(m) && m@ == "unsupported proxy type"@)),
        (spec_op_is(proxy_type, "Socks5") && listen is None) ==> (r matches Err(e) && (e
            matches ShadowError::AddrParseError(m) && m@ == listen_text@)),
        listen matches Some(l) ==> (spec_op_is(proxy_type, "Socks5") ==> (r matches Ok(p) && p.0
            == op && p.1 == l)),
{
    if parse_proxy_type(proxy_type).is_none() {
        return Err(ShadowError::ParamInvalid(String::from_str("unsupported proxy type")));
    }
    match listen {
        Some(l) => Ok((op, l)),
        None => Err(ShadowError::AddrParseError(String::from_str(listen_text))),
    }
}

/// The geolocation record of an agent's public address, as the lookup
/// service reports it: plain text fields, absent where the service gave
/// none.
pub struct GeoRecord {
    pub status: String,
    pub country: Option<String>,
    pub country_code: Option<String>,
    pub region: Option<String>,
    pub region_name: Option<String>,
    pub city: Option<String>,
    pub zip: Option<String>,
    pub lat: Option<String>,
    pub lon: Option<String>,
    pub timezone: Option<String>,
    pub isp: Option<String>,
    pub org: Option<String>,
    pub autonomous_system: Option<String>,
    pub query: String,
}

/// The client summary: the geolocation of the agent's address beside the
/// cached host snapshot.
pub struct Summary {
    pub ip: GeoRecord,
    pub info: SystemInfo,
}

/// Assemble the summary reply from the cached snapshot and the lookup's
/// outcome: a failed lookup is a `RequestError` naming the requested
/// source and the failure's message.
pub fn summarize(info: SystemInfo, geo: Result<GeoRecord, (String, String)>) -> (r: Result<
    Summary,
    ShadowError,
>)
    ensures
        geo matches Ok(g) ==> (r matches Ok(s) && s.ip == g && s.info == info),
        geo matches Err(f) ==> (r matches Err(e) && (e matches ShadowError::RequestError(u, m) && u
            == f.0 && m == f.1)),
{
    match geo {
        Ok(g) => Ok(Summary { ip: g, info }),
        Err(f) => Err(ShadowError::RequestError(f.0, f.1)),
    }
}

} // verus!
