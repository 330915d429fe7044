//! The per-session record: one per accepted agent, created at accept,
//! filled by the capability exchange, torn down when the multiplexer exits.
//! Generic over the remote-capability handle `C` and the one-shot disconnect
//! signal `S` that the runtime supplies; the record owns the proxy table.

use vstd::prelude::*;
use crate::addr::SocketAddress;
use crate::error::ErrorKind;
use crate::error::ShadowError;
use crate::registry::AddrMap;
use crate::types::SystemInfo;

verus! {

/// Static identity of a peer, echoed in handshake replies.
pub struct ServerCfg {
    pub version: String,
}

/// One live agent session and its state: the cached host summary, the
/// remote capability handle (absent until the capability exchange completes
/// and cleared at teardown), the disconnect signal, and the proxy table.
pub struct Session<C, S> {
    pub addr: SocketAddress,
    pub cfg: ServerCfg,
    pub info: SystemInfo,
    pub client: Option<C>,
    pub signal: Option<S>,
    pub proxies: AddrMap<Option<S>>,
}

impl<C, S> Session<C, S> {
    /// Internal invariant: the proxy table keeps its keys unique.
    pub open spec fn wf(&self) -> bool {
        self.proxies.wf()
    }

    /// The fields a proxy-table operation must not touch.
    pub open spec fn same_core(&self, other: &Self) -> bool {
        &&& self.addr == other.addr
        &&& self.cfg == other.cfg
        &&& self.info == other.info
        &&& self.client == other.client
        &&& self.signal == other.signal
    }

    /// A fresh record for a peer at `addr`: no handle, no signal, no
    /// proxies, an empty host summary.
    pub fn new(addr: SocketAddress, version: String) -> (r: Self)
        ensures
            r.wf(),
            r.addr == addr,
            r.cfg.version == version,
            r.client is None,
            r.signal is None,
            r.proxies.view() == Map::<SocketAddress, Option<S>>::empty(),
            r.info.system_name@ == Seq::<char>::empty(),
            r.info.kernel_version@ == Seq::<char>::empty(),
            r.info.os_version@ == Seq::<char>::empty(),
            r.info.host_name@ == Seq::<char>::empty(),
    {
        Session {
            addr,
            cfg: ServerCfg { version },
            info: crate::types::assemble_system_info(None, None, None, None),
            client: None,
            signal: None,
            proxies: AddrMap::new(),
        }
    }

    /// The remote capability handle, or `ClientNotFound` while the
    /// capability exchange has not completed or teardown has begun. Every
    /// operator→agent call resolves its handle through this.
    pub fn client_handle(&self) -> (r: Result<&C, ShadowError>)
        ensures
            self.client matches Some(c) ==> (r matches Ok(h) && *h == c),
            self.client is None ==> (r matches Err(e) && e.spec_kind() == ErrorKind::ClientNotFound),
    {
        match &self.client {
            Some(c) => Ok(c),
            None => Err(ShadowError::ClientNotFound),
        }
    }

    /// Install the handle received in the capability exchange.
    pub fn install_client(&mut self, c: C)
        ensures
            final(self).client matches Some(h) && h == c,
            final(self).addr == old(self).addr,
            final(self).cfg == old(self).cfg,
            final(self).info == old(self).info,
            final(self).signal == old(self).signal,
            final(self).proxies == old(self).proxies,
    {
        self.client = Some(c);
    }

    /// Drop the handle; from here every call resolves to `ClientNotFound`.
    pub fn clear_client(&mut self)
        ensures
            final(self).client is None,
            final(self).addr == old(self).addr,
            final(self).cfg == old(self).cfg,
            final(self).info == old(self).info,
            final(self).signal == old(self).signal,
            final(self).proxies == old(self).proxies,
    {
        self.client = None;
    }

    /// Arm the session's disconnect signal.
    pub fn install_signal(&mut self, s: S)
        ensures
            final(self).signal matches Some(x) && x == s,
            final(self).addr == old(self).addr,
            final(self).cfg == old(self).cfg,
            final(self).info == old(self).info,
            final(self).client == old(self).client,
            final(self).proxies == old(self).proxies,
    {
        self.signal = Some(s);
    }

    /// Cache the host summary obtained after the handshake.
    pub fn set_info(&mut self, info: SystemInfo)
        ensures
            final(self).info == info,
            final(self).addr == old(self).addr,
            final(self).cfg == old(self).cfg,
            final(self).client == old(self).client,
            final(self).signal == old(self).signal,
            final(self).proxies == old(self).proxies,
    {
        self.info = info;
    }

    /// Consume the disconnect signal for firing; a session whose signal is
    /// already gone reports `DisconnectError`.
    pub fn take_signal(&mut self) -> (r: Result<S, ShadowError>)
        ensures
            old(self).signal matches Some(s) ==> (r matches Ok(x) && x == s && final(self).signal is None),
            old(self).signal is None ==> (r matches Err(e) && e.spec_kind()
                == ErrorKind::DisconnectError && final(self).signal is None),
            final(self).addr == old(self).addr,
            final(self).cfg == old(self).cfg,
            final(self).info == old(self).info,
            final(self).client == old(self).client,
            final(self).proxies == old(self).proxies,
    {
        match self.signal.take() {
            Some(s) => Ok(s),
            None => Err(ShadowError::DisconnectError),
        }
    }

    /// Whether a proxy listener is already open on `l`: `proxy/open` asks
    /// this first and succeeds without a second listener when it holds.
    pub fn proxy_is_open(&self, l: SocketAddress) -> (r: bool)
        ensures
            r == self.proxies.view().contains_key(l),
    {
        self.proxies.contains(l)
    }

    /// Record a freshly bound listener on `l` with its disconnect signal.
    /// The table never gains a second entry for one address.
    pub fn open_proxy(&mut self, l: SocketAddress, sig: S)
        requires
            old(self).wf(),
        ensures
            final(self).wf(),
            final(self).proxies.view() == old(self).proxies.view().insert(l, Some(sig)),
            final(self).proxies.entries@.len() == old(self).proxies.entries@.len() + (if old(self).proxies.view().contains_key(l) {
                0int
            } else {
                1int
            }),
            final(self).same_core(old(self)),
    {
        self.proxies.upsert(l, Some(sig));
    }

    /// `proxy/close`: consume the listener entry on `l`. An address with no
    /// open proxy is refused with `ParamInvalid`; otherwise the entry is
    /// removed and its pending signal handed back for firing.
    pub fn close_proxy(&mut self, l: SocketAddress) -> (r: Result<Option<S>, ShadowError>)
        requires
            old(self).wf(),
        ensures
            final(self).wf(),
            final(self).same_core(old(self)),
            !old(self).proxies.view().contains_key(l) ==> (r matches Err(e) && e.spec_kind()
                == ErrorKind::ParamInvalid && final(self).proxies.view() == old(self).proxies.view()),
            old(self).proxies.view().contains_key(l) ==> (r matches Ok(sig) && sig == old(self).proxies.view()[l] && final(self).proxies.view() == old(self).proxies.view().remove(
                l,
            )),
    {
        if !self.proxies.contains(l) {
            return Err(ShadowError::ParamInvalid(String::from_str("no existing proxy running")));
        }
        match self.proxies.remove(l) {
            Some(sig) => Ok(sig),
            None => {
                proof {
                    assert(false);
                }
                Err(ShadowError::ParamInvalid(String::new()))
            },
        }
    }

    /// The listen addresses of this session's open proxies, in table
    /// order: the registry-wide proxy listing reads these.
    pub fn proxy_addrs(&self) -> (r: Vec<SocketAddress>)
        requires
            self.wf(),
        ensures
            r@.len() == self.proxies.entries@.len(),
            forall|i: int| 0 <= i < r@.len() ==> #[trigger] r@[i] == self.proxies.entries@[i].0,
            r@.no_duplicates(),
    {
        self.proxies.keys()
    }

    /// Session teardown's proxy half: empty the table and hand every entry
    /// back so the runtime can fire the signals that are still pending.
    pub fn drain_proxies(&mut self) -> (r: Vec<(SocketAddress, Option<S>)>)
        requires
            old(self).wf(),
        ensures
            final(self).wf(),
            final(self).same_core(old(self)),
            final(self).proxies.entries@.len() == 0,
            final(self).proxies.view() == Map::<SocketAddress, Option<S>>::empty(),
            r@ == old(self).proxies.entries@,
    {
        self.proxies.drain()
    }
}

/// C5's last step: fold the transport's outcome into the typed result. The
/// call is made exactly when the handle was resolved; a missing handle is
/// `ClientNotFound`, a transport or remote failure is `CallError` with the
/// remote message, and anything else is the call's own success.
pub fn facade_result<T>(handle_present: bool, outcome: Option<Result<T, String>>) -> (r: Result<
    T,
    ShadowError,
>)
    requires
        handle_present <==> outcome is Some,
    ensures
        !handle_present ==> (r matches Err(e) && e.spec_kind() == ErrorKind::ClientNotFound),
        outcome matches Some(o) ==> match o {
            Ok(v) => r matches Ok(rv) && rv == v,
            Err(m) => r matches Err(e) && (e matches ShadowError::CallError(mm) && mm == m),
        },
        r is Ok || (r matches Err(e) && (e.spec_kind() == ErrorKind::CallError || e.spec_kind()
            == ErrorKind::ClientNotFound)),
{
    match outcome {
        Some(Ok(v)) => Ok(v),
        Some(Err(m)) => Err(ShadowError::CallError(m)),
        None => Err(ShadowError::ClientNotFound),
    }
}

/// For every address in the registry, a call through the façade ends in
/// exactly one of three ways: the call's success, a structured `CallError`
/// carrying the remote message, or `ClientNotFound` — the last only while
/// the session's handle is absent, that is while it is being installed or
/// the session is being torn down and removed.
pub proof fn lemma_facade_trichotomy<T>(
    handle_present: bool,
    outcome: Option<Result<T, String>>,
    r: Result<T, ShadowError>,
)
    requires
        handle_present <==> outcome is Some,
        !handle_present ==> (r matches Err(e) && e.spec_kind() == ErrorKind::ClientNotFound),
        outcome matches Some(o) ==> match o {
            Ok(v) => r matches Ok(rv) && rv == v,
            Err(m) => r matches Err(e) && (e matches ShadowError::CallError(mm) && mm == m),
        },
    ensures
        r is Ok || (r matches Err(e) && (e.spec_kind() == ErrorKind::CallError || e.spec_kind()
            == ErrorKind::ClientNotFound)),
        (handle_present && (outcome matches Some(o) && o is Ok)) ==> r is Ok,
{
}

/// After `proxy/close` on `l` succeeds, the table no longer holds `l`, so a
/// following `proxy/open` on the same local address takes the fresh-listener
/// path and ends with `l` open exactly once.
pub proof fn lemma_close_then_reopen<S>(
    before: Map<SocketAddress, Option<S>>,
    l: SocketAddress,
    sig: S,
)
    ensures
        !before.remove(l).contains_key(l),
        before.remove(l).insert(l, Some(sig)).contains_key(l),
        before.remove(l).insert(l, Some(sig))[l] == Some(sig),
{
}

/// Opening a local address that is already open replaces its entry instead
/// of adding one: the table never holds two listeners for one address.
pub proof fn lemma_open_idempotent<S>(
    before: Map<SocketAddress, Option<S>>,
    l: SocketAddress,
    s1: S,
    s2: S,
)
    ensures
        before.insert(l, Some(s1)).insert(l, Some(s2)) == before.insert(l, Some(s2)),
        before.insert(l, Some(s1)).dom() == before.insert(l, Some(s2)).dom(),
{
    assert(before.insert(l, Some(s1)).insert(l, Some(s2)) =~= before.insert(l, Some(s2)));
    assert(before.insert(l, Some(s1)).dom() =~= before.insert(l, Some(s2)).dom());
}

/// After session teardown, the registry holds no entry for the session's
/// address, and the session's proxy table is empty: removal takes the
/// address out of the registry map, and the drain leaves the empty table.
pub proof fn lemma_teardown_clears<V, S>(
    registry_before: Map<SocketAddress, V>,
    a: SocketAddress,
    proxies_after: Map<SocketAddress, Option<S>>,
)
    requires
        proxies_after == Map::<SocketAddress, Option<S>>::empty(),
    ensures
        !registry_before.remove(a).contains_key(a),
        forall|l: SocketAddress| !proxies_after.contains_key(l),
{
    assert(forall|l: SocketAddress| !proxies_after.contains_key(l)) by {
        assert(proxies_after.dom() =~= Set::<SocketAddress>::empty());
    }
}


/// Classify the delivery of a one-shot disconnect signal: the lifecycle
/// signalling failed exactly when the receiving end was already gone.
pub fn signal_send_outcome(delivered: bool) -> (r: Result<(), ShadowError>)
    ensures
        r is Ok <==> delivered,
        !delivered ==> (r matches Err(e) && e.spec_kind() == ErrorKind::StopFailed),
{
    if delivered {
        Ok(())
    } else {
        Err(ShadowError::StopFailed)
    }
}

} // verus!
