//! Running a command line on the agent: POSIX-like word splitting through
//! the host's shell rules, and the assembly of the reply from the exit
//! status and the console output.

use vstd::prelude::*;
use local_encoding::Encoder;
use crate::error::ErrorKind;
use crate::error::ShadowError;
use crate::types::Execute;

verus! {

/// What POSIX-shell-like word splitting makes of a command line; `None`
/// where the line cannot be split (an unclosed quote). A function of the
/// characters alone.
pub uninterp spec fn shell_words_of(s: Seq<char>) -> Option<Seq<Seq<char>>>;

/// Relies on `shlex::split`: POSIX-shell-like word splitting, depending on
/// the characters alone; `None` on erroneous input such as an unclosed
/// quotation.
#[verifier::external_body]
fn shell_split(s: &str) -> (r: Option<Vec<String>>)
    ensures
        r is Some <==> shell_words_of(s@) is Some,
        r matches Some(v) ==> (shell_words_of(s@) matches Some(ws) && v@.len() == ws.len() && (
        forall|i: int| 0 <= i < ws.len() ==> #[trigger] v@[i]@ == ws[i])),
{
    shlex::split(s)
}

/// Split a command line into the executable and its arguments: the first
/// word names the executable. An empty or unsplittable line is refused.
pub fn parse_command_line(s: &str) -> (r: Result<(String, Vec<String>), ShadowError>)
    ensures
        shell_words_of(s@) is None ==> (r matches Err(e) && (e
            matches ShadowError::ParamInvalid(m) && m@ == "no file specified"@)),
        shell_words_of(s@) matches Some(ws) ==> ((ws.len() == 0 ==> (r matches Err(e) && (e
            matches ShadowError::ParamInvalid(m) && m@ == "no file specified"@))) && (ws.len() > 0
            ==> (r matches Ok(p) && p.0@ == ws[0] && p.1@.len() == ws.len() - 1 && (forall|i: int|
            0 <= i < ws.len() - 1 ==> #[trigger] p.1@[i]@ == ws[i + 1])))),
{
    match shell_split(s) {
        None => Err(ShadowError::ParamInvalid(String::from_str("no file specified"))),
        Some(tokens) => {
            let ghost toks = tokens@;
            match crate::types::command_parts(tokens) {
                Ok(p) => {
                    proof {
                        assert(forall|i: int|
                            0 <= i < toks.len() - 1 ==> #[trigger] p.1@[i] == toks[i + 1]);
                    }
                    Ok(p)
                },
                Err(e) => Err(e),
            }
        },
    }
}

/// Relies on local_encoding's OEM decoder: bytes to text in the host's
/// 8-bit console encoding (UTF-8 where the host has no code pages). What
/// text comes back depends on the host's code page, so beyond the empty
/// input — which both platform paths decode to the empty string — nothing
/// more is promised.
#[verifier::external_body]
fn decode_console_bytes(data: &[u8]) -> (r: Option<String>)
    ensures
        r is Some || data@.len() > 0,
        r matches Some(s) ==> (data@.len() == 0 ==> s@ == Seq::<char>::empty()),
{
    match local_encoding::Encoding::OEM.to_string(data) {
        Ok(s) => Some(s),
        Err(_) => None,
    }
}

/// Assemble the reply of a finished command from the exit status and the
/// decode's outcome: success carries the decoded output under the given
/// status, and output the decoder refused is an I/O failure.
pub fn execute_reply(status: String, decoded: Option<String>) -> (r: Result<Execute, ShadowError>)
    ensures
        decoded matches Some(o) ==> (r matches Ok(x) && x.status == status && x.output == o),
        decoded is None ==> (r matches Err(e) && (e matches ShadowError::IoError(m) && m@
            == "undecodable console output"@)),
{
    match decoded {
        Some(output) => Ok(Execute { status, output }),
        None => Err(ShadowError::IoError(String::from_str("undecodable console output"))),
    }
}

/// The reply of a finished command: the console output put through the
/// host's code page and folded by `execute_reply`. Empty output always
/// decodes, to the empty string.
pub fn execute_outcome(status: String, stdout: &[u8]) -> (r: Result<Execute, ShadowError>)
    ensures
        r matches Ok(x) ==> x.status == status,
        r matches Err(e) ==> (e matches ShadowError::IoError(m) && m@
            == "undecodable console output"@),
        stdout@.len() == 0 ==> (r matches Ok(x) && x.status == status && x.output@
            == Seq::<char>::empty()),
{
    let decoded = decode_console_bytes(stdout);
    execute_reply(status, decoded)
}

} // verus!
