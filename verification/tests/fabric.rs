use shadow::addr::IpAddress;
use shadow::addr::SocketAddress;
use shadow::codec::WireValue;
use shadow::error::ErrorKind;
use shadow::error::ShadowError;
use shadow::registry::AddrMap;
use shadow::session::facade_result;
use shadow::session::Session;
use shadow::types::DirEntryRaw;
use shadow::types::App;

fn addr(d: u8, port: u16) -> SocketAddress {
    SocketAddress { ip: IpAddress::V4 { a: 127, b: 0, c: 0, d }, port }
}

#[test]
fn error_names_round_trip() {
    let kinds = [
        ErrorKind::CallError,
        ErrorKind::ClientNotFound,
        ErrorKind::ParamInvalid,
        ErrorKind::AddressInvalid,
        ErrorKind::ProcessNotFound,
        ErrorKind::KillProcessError,
        ErrorKind::Success,
        ErrorKind::StopFailed,
    ];
    for k in kinds {
        let name = shadow::error::kind_name(k);
        assert_eq!(shadow::error::parse_kind_name(name.as_str()), Some(k));
    }
    assert_eq!(shadow::error::parse_kind_name("NotAKnownError"), None);
}

#[test]
fn envelope_parses_back() {
    let e = ShadowError::ParamInvalid(String::from("missing pid"));
    let env = shadow::web::error_envelope(&e, String::from("missing pid"));
    assert_eq!(
        shadow::error::parse_kind_name(env.error.as_str()),
        Some(ErrorKind::ParamInvalid)
    );
}

#[test]
fn status_mapping_table() {
    assert_eq!(shadow::web::status_for(ErrorKind::Success), 200);
    assert_eq!(shadow::web::status_for(ErrorKind::ClientNotFound), 404);
    assert_eq!(shadow::web::status_for(ErrorKind::ParamInvalid), 400);
    assert_eq!(shadow::web::status_for(ErrorKind::CallError), 400);
    assert_eq!(shadow::web::status_for(ErrorKind::AddressInvalid), 400);
}

#[test]
fn encode_scalars() {
    let mut out: Vec<u8> = Vec::new();
    shadow::codec::encode(&WireValue::Unit, &mut out);
    assert_eq!(out, vec![0u8]);

    let mut out: Vec<u8> = Vec::new();
    shadow::codec::encode(&WireValue::Bool(true), &mut out);
    assert_eq!(out, vec![1u8, 1]);

    let mut out: Vec<u8> = Vec::new();
    shadow::codec::encode(&WireValue::U32(0x01020304), &mut out);
    assert_eq!(out, vec![2u8, 4, 3, 2, 1]);

    let mut out: Vec<u8> = Vec::new();
    shadow::codec::encode(&WireValue::U64(1), &mut out);
    assert_eq!(out, vec![3u8, 1, 0, 0, 0, 0, 0, 0, 0]);
}

#[test]
fn encode_text_and_bytes() {
    let mut out: Vec<u8> = Vec::new();
    shadow::codec::encode(&WireValue::Text(String::from("hi")), &mut out);
    assert_eq!(out, vec![4u8, 2, 0, 0, 0, 0, 0, 0, 0, b'h', b'i']);

    let mut out: Vec<u8> = Vec::new();
    shadow::codec::encode(&WireValue::Bytes(vec![9, 8]), &mut out);
    assert_eq!(out, vec![5u8, 2, 0, 0, 0, 0, 0, 0, 0, 9, 8]);
}

#[test]
fn encode_list_and_handles() {
    let mut out: Vec<u8> = Vec::new();
    let v = WireValue::List(vec![WireValue::Unit, WireValue::Bool(false)]);
    shadow::codec::encode(&v, &mut out);
    assert_eq!(out, vec![6u8, 2, 0, 0, 0, 0, 0, 0, 0, 0, 1, 0]);

    let mut out: Vec<u8> = Vec::new();
    shadow::codec::encode(&WireValue::AgentCapability(7), &mut out);
    assert_eq!(out, vec![7u8, 7, 0, 0, 0, 0, 0, 0, 0]);
}

#[test]
fn capability_exchange_tags() {
    let agent = WireValue::AgentCapability(3);
    let operator = WireValue::OperatorCapability(4);
    assert_eq!(shadow::codec::expect_agent_capability(&agent).unwrap(), 3);
    assert_eq!(shadow::codec::expect_operator_capability(&operator).unwrap(), 4);
    assert!(shadow::codec::expect_agent_capability(&operator).is_err());
    assert!(shadow::codec::expect_operator_capability(&agent).is_err());
}

#[test]
fn registry_session_lifecycle() {
    let mut reg: AddrMap<u32> = AddrMap::new();
    let a = addr(1, 50000);
    assert!(!reg.contains(a));
    assert!(reg.upsert(a, 11).is_none());
    assert!(reg.contains(a));
    assert_eq!(reg.keys(), vec![a]);
    assert_eq!(reg.get(a), Some(&11));
    // replacement is last-writer-wins without a second entry
    assert_eq!(reg.upsert(a, 12), Some(11));
    assert_eq!(reg.len(), 1);
    assert_eq!(reg.get(a), Some(&12));
    // teardown removes the entry; the listing is empty afterwards
    assert_eq!(reg.remove(a), Some(12));
    assert!(!reg.contains(a));
    assert_eq!(reg.keys(), Vec::<SocketAddress>::new());
    assert!(reg.remove(a).is_none());
}

#[test]
fn proxy_open_is_idempotent() {
    let mut s: Session<u32, u32> = Session::new(addr(1, 1), String::from("v1"));
    let l = addr(0, 9999);
    assert!(!s.proxy_is_open(l));
    s.open_proxy(l, 100);
    assert!(s.proxy_is_open(l));
    // opening the open address replaces the entry instead of adding one
    s.open_proxy(l, 101);
    assert_eq!(s.proxy_addrs(), vec![l]);
}

#[test]
fn proxy_close_unknown_is_param_invalid() {
    let mut s: Session<u32, u32> = Session::new(addr(1, 1), String::from("v1"));
    let r = s.close_proxy(addr(0, 9999));
    match r {
        Err(e) => assert_eq!(e.kind(), ErrorKind::ParamInvalid),
        Ok(_) => panic!("closing an unknown proxy must be refused"),
    }
}

#[test]
fn proxy_close_then_reopen() {
    let mut s: Session<u32, u32> = Session::new(addr(1, 1), String::from("v1"));
    let l = addr(0, 9999);
    s.open_proxy(l, 1);
    assert_eq!(s.close_proxy(l).unwrap(), Some(1));
    assert!(!s.proxy_is_open(l));
    s.open_proxy(l, 2);
    assert!(s.proxy_is_open(l));
    assert_eq!(s.proxy_addrs(), vec![l]);
}

#[test]
fn teardown_drains_proxies() {
    let mut s: Session<u32, u32> = Session::new(addr(1, 1), String::from("v1"));
    s.open_proxy(addr(0, 9000), 1);
    s.open_proxy(addr(0, 9001), 2);
    let drained = s.drain_proxies();
    assert_eq!(drained.len(), 2);
    assert_eq!(s.proxy_addrs(), Vec::<SocketAddress>::new());
    assert!(!s.proxy_is_open(addr(0, 9000)));
}

#[test]
fn session_handle_lifecycle() {
    let mut s: Session<u32, u32> = Session::new(addr(1, 1), String::from("v1"));
    assert_eq!(s.client_handle().err().unwrap().kind(), ErrorKind::ClientNotFound);
    s.install_client(42);
    assert_eq!(*s.client_handle().unwrap(), 42);
    s.clear_client();
    assert!(s.client_handle().is_err());
    // the disconnect signal can be taken once
    assert_eq!(s.take_signal().err().unwrap().kind(), ErrorKind::DisconnectError);
    s.install_signal(5);
    assert_eq!(s.take_signal().unwrap(), 5);
    assert_eq!(s.take_signal().err().unwrap().kind(), ErrorKind::DisconnectError);
}

#[test]
fn facade_outcomes() {
    // the call's own success
    assert_eq!(facade_result::<u32>(true, Some(Ok(9))).unwrap(), 9);
    // a transport failure surfaces as CallError with the remote message
    match facade_result::<u32>(true, Some(Err(String::from("broken pipe")))) {
        Err(ShadowError::CallError(m)) => assert_eq!(m, "broken pipe"),
        _ => panic!("transport failures must surface as CallError"),
    }
    // a missing handle is ClientNotFound
    assert_eq!(
        facade_result::<u32>(false, None).err().unwrap().kind(),
        ErrorKind::ClientNotFound
    );
}

#[test]
fn clean_listing_is_total() {
    let entries = vec![
        DirEntryRaw { name: Some(String::from("a")), is_dir: Some(false), size: Some(3) },
        DirEntryRaw { name: Some(String::from("b")), is_dir: Some(true), size: Some(0) },
    ];
    let files = shadow::types::collect_entries(entries);
    assert_eq!(files.len(), 2);
    assert_eq!(files[0].name, "a");
    assert!(!files[0].is_dir);
    assert_eq!(files[1].name, "b");
    assert!(files[1].is_dir);
}

#[test]
fn listing_skips_incomplete_entries() {
    let entries = vec![
        DirEntryRaw { name: None, is_dir: Some(false), size: Some(3) },
        DirEntryRaw { name: Some(String::from("kept")), is_dir: Some(false), size: Some(1) },
        DirEntryRaw { name: Some(String::from("nostat")), is_dir: None, size: None },
    ];
    let files = shadow::types::collect_entries(entries);
    assert_eq!(files.len(), 1);
    assert_eq!(files[0].name, "kept");
}

#[test]
fn apps_with_empty_names_are_hidden() {
    let apps = vec![
        App { name: String::from(""), publisher: String::from("x"), version: String::from("1") },
        App { name: String::from("editor"), publisher: String::from("y"), version: String::from("2") },
    ];
    let visible = shadow::types::filter_apps(apps);
    assert_eq!(visible.len(), 1);
    assert_eq!(visible[0].name, "editor");
}

#[test]
fn kill_of_missing_process_never_succeeds() {
    let r = shadow::types::kill_process_outcome(0, false, false);
    match r {
        Err(ShadowError::ProcessNotFound(p)) => assert_eq!(p, "0"),
        _ => panic!("a process that was not found must be reported as such"),
    }
    let r = shadow::types::kill_process_outcome(4321, true, false);
    match r {
        Err(e) => assert_eq!(e.kind(), ErrorKind::KillProcessError),
        Ok(_) => panic!("a failed signal must not report success"),
    }
    assert!(shadow::types::kill_process_outcome(4321, true, true).is_ok());
}

#[test]
fn power_outcome_reflects_adapter() {
    assert!(shadow::types::power_outcome(true).is_ok());
    assert_eq!(
        shadow::types::power_outcome(false).err().unwrap().kind(),
        ErrorKind::SystemPowerError
    );
}

#[test]
fn system_info_defaults_to_empty_fields() {
    let info = shadow::types::assemble_system_info(
        Some(String::from("linux")),
        None,
        Some(String::from("6.1")),
        None,
    );
    assert_eq!(info.system_name, "linux");
    assert_eq!(info.kernel_version, "");
    assert_eq!(info.os_version, "6.1");
    assert_eq!(info.host_name, "");
}

#[test]
fn listing_failure_names_the_directory() {
    match shadow::types::list_dir_outcome(String::from("/nope"), Err(String::from("denied"))) {
        Err(ShadowError::QueryFilesError(d, m)) => {
            assert_eq!(d, "/nope");
            assert_eq!(m, "denied");
        },
        _ => panic!("a failed directory read must be QueryFilesError"),
    }
    let ok = shadow::types::list_dir_outcome(
        String::from("/tmp"),
        Ok(vec![DirEntryRaw { name: Some(String::from("x")), is_dir: Some(false), size: Some(1) }]),
    )
    .unwrap();
    assert_eq!(ok.len(), 1);
    assert_eq!(ok[0].name, "x");
}

#[test]
fn app_enumeration_failure_is_classified() {
    match shadow::types::apps_outcome(Err(String::from("no registry"))) {
        Err(ShadowError::QueryAppsError(m)) => assert_eq!(m, "no registry"),
        _ => panic!("a failed enumeration must be QueryAppsError"),
    }
    let ok = shadow::types::apps_outcome(Ok(vec![App {
        name: String::from("editor"),
        publisher: String::from("p"),
        version: String::from("1"),
    }]))
    .unwrap();
    assert_eq!(ok.len(), 1);
}

#[test]
fn dropped_signal_receiver_is_stop_failed() {
    assert!(shadow::session::signal_send_outcome(true).is_ok());
    match shadow::session::signal_send_outcome(false) {
        Err(e) => assert_eq!(e.kind(), ErrorKind::StopFailed),
        Ok(_) => panic!("a dropped receiver must be StopFailed"),
    }
}

#[test]
fn replaced_session_cannot_remove_its_replacement() {
    let mut reg: AddrMap<(u64, u32)> = AddrMap::new();
    let a = addr(1, 50000);
    reg.upsert(a, (1, 10));
    // the address is reused: the replacement wins the entry
    reg.upsert(a, (2, 20));
    // the replaced session's teardown carries the old stamp and must not
    // delete the replacement
    assert!(reg.remove_stamped(a, 1).is_none());
    assert_eq!(reg.get(a), Some(&(2, 20)));
    // the replacement's own teardown removes it
    assert_eq!(reg.remove_stamped(a, 2), Some((2, 20)));
    assert!(!reg.contains(a));
}
