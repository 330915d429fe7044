//! The data carried by the agent's capabilities, and the agent-side decision
//! logic that turns raw host-probe results into capability replies.

use vstd::prelude::*;
use crate::error::ShadowError;
use crate::text::spec_decimal;

verus! {

/// The one value each side sends on the root channel right after connecting.
pub struct Handshake {
    pub message: String,
}

/// Snapshot of the agent host, cached per session after the handshake.
#[derive(Default)]
pub struct SystemInfo {
    pub system_name: String,
    pub kernel_version: String,
    pub os_version: String,
    pub host_name: String,
}

/// One installed application, as the agent reports it.
pub struct App {
    pub name: String,
    pub publisher: String,
    pub version: String,
}

/// One running process, as the agent reports it.
pub struct Process {
    pub pid: u32,
    pub parent_pid: Option<u32>,
    pub name: String,
    pub exe: String,
    pub start_time: u64,
    pub cwd: String,
}

/// One directory entry, as `list_dir` reports it.
pub struct File {
    pub name: String,
    pub is_dir: bool,
    pub size: u64,
}

/// The power action an operator can fire on the agent host.
#[derive(Clone, Copy, PartialEq, Eq, Structural, Debug)]
pub enum SystemPowerAction {
    Shutdown,
    Reboot,
    Logout,
    Sleep,
    Hibernate,
}

/// What running a command line on the agent returned.
pub struct Execute {
    pub output: String,
    pub status: String,
}

/// What the host probes report about one directory entry before the skip
/// rules are applied: each field is `None` where the probe failed (a name
/// that is not valid UTF-8, a kind or a stat that could not be read).
pub struct DirEntryRaw {
    pub name: Option<String>,
    pub is_dir: Option<bool>,
    pub size: Option<u64>,
}

impl DirEntryRaw {
    /// Whether every probe of this entry succeeded.
    pub open spec fn is_complete(&self) -> bool {
        self.name is Some && self.is_dir is Some && self.size is Some
    }
}

/// The entries a complete probe sequence lists: one `File` per complete
/// entry, in order; incomplete entries are skipped silently.
pub open spec fn spec_listed_files(s: Seq<DirEntryRaw>) -> Seq<File>
    decreases s.len(),
{
    if s.len() == 0 {
        Seq::empty()
    } else {
        let rest = spec_listed_files(s.drop_last());
        let e = s.last();
        if e.is_complete() {
            rest + seq![
                File {
                    name: e.name->0,
                    is_dir: e.is_dir->0,
                    size: e.size->0,
                },
            ]
        } else {
            rest
        }
    }
}

/// Apply the skip rules of `list_dir` to raw probe results: keep exactly the
/// entries whose probes all succeeded, in order.
pub fn collect_entries(entries: Vec<DirEntryRaw>) -> (r: Vec<File>)
    ensures
        r@ == spec_listed_files(entries@),
{
    let ghost orig: Seq<DirEntryRaw> = entries@;
    let mut rest = entries;
    let mut out: Vec<File> = Vec::new();
    let ghost mut i: int = 0;
    while rest.len() > 0
        invariant
            0 <= i <= orig.len(),
            rest@ == orig.skip(i),
            out@ == spec_listed_files(orig.take(i)),
        decreases rest@.len(),
    {
        let e = rest.remove(0);
        proof {
            assert(e == orig[i]);
            assert(orig.take(i + 1).drop_last() =~= orig.take(i));
            assert(orig.take(i + 1).last() == orig[i]);
            assert(rest@ =~= orig.skip(i + 1));
        }
        match (e.name, e.is_dir, e.size) {
            (Some(name), Some(is_dir), Some(size)) => {
                out.push(File { name, is_dir, size });
            },
            _ => {},
        }
        proof {
            i = i + 1;
        }
    }
    proof {
        assert(orig.take(i) =~= orig);
    }
    out
}

/// Listing a directory whose every entry probes cleanly returns exactly one
/// entry per directory item, in order and with the probed name, kind and
/// size.
pub proof fn lemma_clean_listing_is_total(s: Seq<DirEntryRaw>)
    requires
        forall|i: int| 0 <= i < s.len() ==> (#[trigger] s[i]).is_complete(),
    ensures
        spec_listed_files(s).len() == s.len(),
        forall|i: int| 0 <= i < s.len() ==> (#[trigger] spec_listed_files(s)[i]).name
            == s[i].name->0,
        forall|i: int| 0 <= i < s.len() ==> (#[trigger] spec_listed_files(s)[i]).is_dir
            == s[i].is_dir->0,
        forall|i: int| 0 <= i < s.len() ==> (#[trigger] spec_listed_files(s)[i]).size
            == s[i].size->0,
    decreases s.len(),
{
    if s.len() > 0 {
        let s0 = s.drop_last();
        assert(forall|i: int| 0 <= i < s0.len() ==> s0[i] == s[i]);
        lemma_clean_listing_is_total(s0);
        assert(s.last().is_complete());
    }
}

/// The apps an enumeration shows: exactly those whose name is non-empty, in
/// order.
pub open spec fn spec_visible_apps(s: Seq<App>) -> Seq<App>
    decreases s.len(),
{
    if s.len() == 0 {
        Seq::empty()
    } else {
        let rest = spec_visible_apps(s.drop_last());
        if s.last().name@.len() > 0 {
            rest + seq![s.last()]
        } else {
            rest
        }
    }
}

/// Apply the visibility rule of `installed_apps`: drop every entry whose
/// name is empty, keeping the order of the rest.
pub fn filter_apps(apps: Vec<App>) -> (r: Vec<App>)
    ensures
        r@ == spec_visible_apps(apps@),
{
    let ghost orig: Seq<App> = apps@;
    let mut rest = apps;
    let mut out: Vec<App> = Vec::new();
    let ghost mut i: int = 0;
    while rest.len() > 0
        invariant
            0 <= i <= orig.len(),
            rest@ == orig.skip(i),
            out@ == spec_visible_apps(orig.take(i)),
        decreases rest@.len(),
    {
        let a = rest.remove(0);
        proof {
            assert(a == orig[i]);
            assert(orig.take(i + 1).drop_last() =~= orig.take(i));
            assert(orig.take(i + 1).last() == orig[i]);
            assert(rest@ =~= orig.skip(i + 1));
        }
        if a.name.as_str().unicode_len() > 0 {
            out.push(a);
        }
        proof {
            i = i + 1;
        }
    }
    proof {
        assert(orig.take(i) =~= orig);
    }
    out
}

/// Fill the host snapshot from the probes' results: a probe that answered
/// nothing contributes an empty field.
pub fn assemble_system_info(
    system_name: Option<String>,
    kernel_version: Option<String>,
    os_version: Option<String>,
    host_name: Option<String>,
) -> (r: SystemInfo)
    ensures
        r.system_name@ == match system_name {
            Some(s) => s@,
            None => Seq::<char>::empty(),
        },
        r.kernel_version@ == match kernel_version {
            Some(s) => s@,
            None => Seq::<char>::empty(),
        },
        r.os_version@ == match os_version {
            Some(s) => s@,
            None => Seq::<char>::empty(),
        },
        r.host_name@ == match host_name {
            Some(s) => s@,
            None => Seq::<char>::empty(),
        },
{
    SystemInfo {
        system_name: match system_name {
            Some(s) => s,
            None => String::new(),
        },
        kernel_version: match kernel_version {
            Some(s) => s,
            None => String::new(),
        },
        os_version: match os_version {
            Some(s) => s,
            None => String::new(),
        },
        host_name: match host_name {
            Some(s) => s,
            None => String::new(),
        },
    }
}

/// Classify the outcome of a kill attempt: the process was not found at all,
/// or it was found and the signal failed, or it was found and killed.
pub fn kill_process_outcome(pid: u32, found: bool, killed: bool) -> (r: Result<(), ShadowError>)
    ensures
        r is Ok <==> found && killed,
        !found ==> (r matches Err(e) && e.spec_kind() == crate::error::ErrorKind::ProcessNotFound
            && (e matches ShadowError::ProcessNotFound(p) && vstd::utf8::encode_utf8(p@)
            == spec_decimal(pid as nat))),
        found && !killed ==> (r matches Err(e) && e.spec_kind()
            == crate::error::ErrorKind::KillProcessError),
{
    if !found {
        let mut digits: Vec<u8> = Vec::new();
        crate::text::push_decimal_u64(&mut digits, pid as u64);
        proof {
            assert(digits@ == spec_decimal(pid as nat));
            crate::text::lemma_decimal_ascii(pid as nat);
        }
        let rendered = crate::text::string_from_utf8(digits);
        match rendered {
            Some(p) => Err(ShadowError::ProcessNotFound(p)),
            None => {
                proof {
                    assert(false);
                }
                Err(ShadowError::ProcessNotFound(String::new()))
            },
        }
    } else if !killed {
        Err(ShadowError::KillProcessError(String::from_str("kill signal failed")))
    } else {
        Ok(())
    }
}

/// A kill attempt that did not both find the process and deliver the signal
/// never reports success; in particular it reports the process as missing or
/// the signal as failed.
pub proof fn lemma_failed_kill_never_succeeds(pid: u32, found: bool, killed: bool, r: Result<
    (),
    ShadowError,
>)
    requires
        !(found && killed),
        r is Ok <==> found && killed,
        !found ==> (r matches Err(e) && e.spec_kind() == crate::error::ErrorKind::ProcessNotFound),
        found && !killed ==> (r matches Err(e) && e.spec_kind()
            == crate::error::ErrorKind::KillProcessError),
    ensures
        r matches Err(e) && (e.spec_kind() == crate::error::ErrorKind::ProcessNotFound
            || e.spec_kind() == crate::error::ErrorKind::KillProcessError),
{
}

/// Classify the outcome of a power action: the adapter either performed it
/// or the action is reported as failed.
pub fn power_outcome(performed: bool) -> (r: Result<(), ShadowError>)
    ensures
        r is Ok <==> performed,
        !performed ==> (r matches Err(e) && e.spec_kind()
            == crate::error::ErrorKind::SystemPowerError),
{
    if performed {
        Ok(())
    } else {
        Err(ShadowError::SystemPowerError)
    }
}

/// Split a word-split command line into the executable and its arguments:
/// the first word names the executable, the rest are passed through; an
/// empty command line is rejected.
pub fn command_parts(tokens: Vec<String>) -> (r: Result<(String, Vec<String>), ShadowError>)
    ensures
        tokens@.len() == 0 ==> (r matches Err(e) && (e matches ShadowError::ParamInvalid(m) && m@
            == "no file specified"@)),
        tokens@.len() > 0 ==> (r matches Ok(p) && p.0 == tokens@[0] && p.1@ == tokens@.skip(1)),
{
    let ghost orig: Seq<String> = tokens@;
    let mut rest = tokens;
    if rest.len() == 0 {
        return Err(ShadowError::ParamInvalid(String::from_str("no file specified")));
    }
    let exe = rest.remove(0);
    proof {
        assert(rest@ =~= orig.skip(1));
    }
    Ok((exe, rest))
}


/// Classify the outcome of the application enumeration: the OS listing,
/// taken as a value, filtered to the visible apps; or `QueryAppsError`
/// carrying the probe's message.
pub fn apps_outcome(listing: Result<Vec<App>, String>) -> (r: Result<Vec<App>, ShadowError>)
    ensures
        listing matches Ok(apps) ==> (r matches Ok(v) && v@ == spec_visible_apps(apps@)),
        listing matches Err(m) ==> (r matches Err(e) && (e matches ShadowError::QueryAppsError(em)
            && em == m)),
{
    match listing {
        Ok(apps) => Ok(filter_apps(apps)),
        Err(m) => Err(ShadowError::QueryAppsError(m)),
    }
}

/// Classify the outcome of a directory listing: the per-entry probes run
/// through the skip rules; a directory that could not be read at all is
/// `QueryFilesError` naming the directory and the probe's message.
pub fn list_dir_outcome(dir: String, probes: Result<Vec<DirEntryRaw>, String>) -> (r: Result<
    Vec<File>,
    ShadowError,
>)
    ensures
        probes matches Ok(entries) ==> (r matches Ok(v) && v@ == spec_listed_files(entries@)),
        probes matches Err(m) ==> (r matches Err(e) && (e
            matches ShadowError::QueryFilesError(d, em) && d == dir && em == m)),
{
    match probes {
        Ok(entries) => Ok(collect_entries(entries)),
        Err(m) => Err(ShadowError::QueryFilesError(dir, m)),
    }
}

} // verus!
