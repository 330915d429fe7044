use shadow::addr::IpAddress;
use shadow::addr::SocketAddress;
use shadow::error::ErrorKind;
use shadow::registry::AddrMap;
use shadow::socks5::Socks5Target;
use shadow::web_client::FileAction;
use shadow::web_client::FileOperation;
use shadow::web_client::ProcessAction;
use shadow::web_client::ProcessOperation;
use shadow::types::SystemPowerAction;
use shadow::web_client::plan_proxy_request;
use shadow::web_client::ProxyOperation;
use shadow::web_client::GeoRecord;

#[test]
fn greeting_with_userpass_method() {
    let methods = shadow::socks5::parse_greeting(&[5, 2, 0, 2]).unwrap();
    assert_eq!(methods, vec![0, 2]);
    assert_eq!(shadow::socks5::select_method(&methods), 2);
    assert_eq!(shadow::socks5::method_reply(2), vec![5, 2]);
}

#[test]
fn greeting_without_userpass_is_refused() {
    let methods = shadow::socks5::parse_greeting(&[5, 1, 0]).unwrap();
    assert_eq!(shadow::socks5::select_method(&methods), 255);
}

#[test]
fn malformed_greetings() {
    assert!(shadow::socks5::parse_greeting(&[4, 1, 0]).is_err());
    assert!(shadow::socks5::parse_greeting(&[5, 3, 0]).is_err());
    assert!(shadow::socks5::parse_greeting(&[5]).is_err());
}

#[test]
fn userpass_negotiation() {
    let (user, pass) = shadow::socks5::parse_userpass(&[1, 1, b'u', 1, b'p']).unwrap();
    assert_eq!(user, vec![b'u']);
    assert_eq!(pass, vec![b'p']);
    assert!(shadow::socks5::check_auth(&user, &pass, b"u", b"p"));
    assert!(!shadow::socks5::check_auth(&user, &pass, b"u", b"q"));
    assert_eq!(shadow::socks5::auth_reply(true), vec![1, 0]);
    assert_eq!(shadow::socks5::auth_reply(false), vec![1, 1]);
    assert!(shadow::socks5::parse_userpass(&[2, 1, b'u', 1, b'p']).is_err());
    assert!(shadow::socks5::parse_userpass(&[1, 9, b'u']).is_err());
}

#[test]
fn connect_request_to_literal_v4() {
    let (cmd, target) =
        shadow::socks5::parse_request(&[5, 1, 0, 1, 127, 0, 0, 1, 0x4E, 0x1F]).unwrap();
    assert_eq!(cmd, 1);
    assert_eq!(shadow::socks5::command_reply_code(cmd), 0);
    match target {
        Socks5Target::Literal(a) => {
            assert_eq!(a, SocketAddress { ip: IpAddress::V4 { a: 127, b: 0, c: 0, d: 1 }, port: 19999 });
        },
        _ => panic!("a v4 request must yield a literal target"),
    }
}

#[test]
fn connect_request_to_domain() {
    let (cmd, target) =
        shadow::socks5::parse_request(&[5, 1, 0, 3, 3, b'x', b'y', b'z', 0, 80]).unwrap();
    assert_eq!(cmd, 1);
    match target {
        Socks5Target::Domain(name, port) => {
            assert_eq!(name, b"xyz".to_vec());
            assert_eq!(port, 80);
        },
        _ => panic!("a domain request must yield a name and port"),
    }
}

#[test]
fn non_connect_commands_are_not_supported() {
    assert_eq!(shadow::socks5::command_reply_code(2), 7);
    assert_eq!(shadow::socks5::command_reply_code(3), 7);
    assert_eq!(
        shadow::socks5::request_reply(7),
        vec![5, 7, 0, 1, 0, 0, 0, 0, 0, 0]
    );
    assert_eq!(
        shadow::socks5::request_reply(0),
        vec![5, 0, 0, 1, 0, 0, 0, 0, 0, 0]
    );
}

#[test]
fn malformed_requests() {
    assert!(shadow::socks5::parse_request(&[5, 1, 0]).is_err());
    assert!(shadow::socks5::parse_request(&[5, 1, 1, 1, 0, 0, 0, 0, 0, 0]).is_err());
    assert!(shadow::socks5::parse_request(&[5, 1, 0, 9, 0, 0, 0, 0, 0, 0]).is_err());
    assert!(shadow::socks5::parse_request(&[5, 1, 0, 1, 0, 0, 0, 0, 0]).is_err());
}

#[test]
fn dispatch_refuses_bad_address() {
    let reg: AddrMap<u8> = AddrMap::new();
    match shadow::web::resolve_client(&reg, "not-an-address", None) {
        Err((status, env)) => {
            assert_eq!(status, 400);
            assert_eq!(env.error, "AddressInvalid");
            assert_eq!(env.message, "not-an-address");
        },
        Ok(_) => panic!("an unparseable address must be refused"),
    }
}

#[test]
fn dispatch_reports_missing_session() {
    let mut reg: AddrMap<u8> = AddrMap::new();
    let known = SocketAddress { ip: IpAddress::V4 { a: 127, b: 0, c: 0, d: 1 }, port: 1 };
    let unknown = SocketAddress { ip: IpAddress::V4 { a: 127, b: 0, c: 0, d: 2 }, port: 2 };
    reg.upsert(known, 9);
    match shadow::web::resolve_client(&reg, "127.0.0.2:2", Some(unknown)) {
        Err((status, env)) => {
            assert_eq!(status, 404);
            assert_eq!(env.error, "ClientNotFound");
            assert_eq!(env.message, "127.0.0.2:2");
        },
        Ok(_) => panic!("a session-less address must be a 404"),
    }
    assert_eq!(*shadow::web::resolve_client(&reg, "127.0.0.1:1", Some(known)).ok().unwrap(), 9);
}

#[test]
fn address_rendering() {
    let v4 = SocketAddress { ip: IpAddress::V4 { a: 127, b: 0, c: 0, d: 1 }, port: 1244 };
    assert_eq!(shadow::addr::render_socket_address(&v4), "127.0.0.1:1244");
    let v6 = SocketAddress {
        ip: IpAddress::V6 { g0: 0, g1: 0, g2: 0, g3: 0, g4: 0, g5: 0, g6: 0, g7: 1 },
        port: 80,
    };
    assert_eq!(shadow::addr::render_socket_address(&v6), "[0:0:0:0:0:0:0:1]:80");
    let v6h = SocketAddress {
        ip: IpAddress::V6 { g0: 0xfe80, g1: 0, g2: 0, g3: 0, g4: 0, g5: 0, g6: 0, g7: 0x1a2b },
        port: 9000,
    };
    assert_eq!(shadow::addr::render_socket_address(&v6h), "[fe80:0:0:0:0:0:0:1a2b]:9000");
}

#[test]
fn unknown_operation_is_param_invalid() {
    let (status, env) = shadow::web::unknown_op_envelope(String::from("Slumber"));
    assert_eq!(status, 400);
    assert_eq!(env.error, "ParamInvalid");
    assert_eq!(env.message, "Slumber");
}

#[test]
fn missing_parameter_message() {
    match shadow::web::require(None::<u32>, "process id") {
        Err(shadow::error::ShadowError::ParamInvalid(m)) => {
            assert_eq!(m, "process id not provided");
        },
        _ => panic!("a missing parameter must be named in the refusal"),
    }
    assert_eq!(shadow::web::require(Some(7u32), "process id").unwrap(), 7);
}

#[test]
fn proxy_request_planning() {
    let l = SocketAddress { ip: IpAddress::V4 { a: 0, b: 0, c: 0, d: 0 }, port: 9999 };
    match plan_proxy_request(ProxyOperation::Open, "http", Some(l), "0.0.0.0:9999") {
        Err(shadow::error::ShadowError::ParamInvalid(m)) => {
            assert_eq!(m, "unsupported proxy type");
        },
        _ => panic!("an unsupported proxy protocol must be refused"),
    }
    match plan_proxy_request(ProxyOperation::Open, "socks5", None, "0.0.0.0:bad") {
        Err(shadow::error::ShadowError::AddrParseError(m)) => {
            assert_eq!(m, "0.0.0.0:bad");
        },
        _ => panic!("an unparseable listen address must be refused"),
    }
    let (op, addr) =
        plan_proxy_request(ProxyOperation::Close, "Socks5", Some(l), "0.0.0.0:9999").unwrap();
    assert_eq!(op, ProxyOperation::Close);
    assert_eq!(addr, l);
}

#[test]
fn summary_assembly() {
    let info = shadow::types::assemble_system_info(Some(String::from("linux")), None, None, None);
    let geo = GeoRecord {
        status: String::from("success"),
        country: Some(String::from("NL")),
        country_code: None,
        region: None,
        region_name: None,
        city: None,
        zip: None,
        lat: None,
        lon: None,
        timezone: None,
        isp: None,
        org: None,
        autonomous_system: None,
        query: String::from("203.0.113.9"),
    };
    let s = shadow::web_client::summarize(info, Ok(geo)).unwrap();
    assert_eq!(s.ip.query, "203.0.113.9");
    assert_eq!(s.info.system_name, "linux");

    let info = shadow::types::assemble_system_info(None, None, None, None);
    match shadow::web_client::summarize(
        info,
        Err((String::from("http://ip-api.com/json/203.0.113.9"), String::from("timed out"))),
    ) {
        Err(shadow::error::ShadowError::RequestError(u, m)) => {
            assert_eq!(u, "http://ip-api.com/json/203.0.113.9");
            assert_eq!(m, "timed out");
        },
        _ => panic!("a failed lookup must surface as RequestError"),
    }
}

#[test]
fn proxy_listing_omits_empty_rows() {
    let a1 = SocketAddress { ip: IpAddress::V4 { a: 127, b: 0, c: 0, d: 1 }, port: 1 };
    let a2 = SocketAddress { ip: IpAddress::V4 { a: 127, b: 0, c: 0, d: 2 }, port: 2 };
    let l = SocketAddress { ip: IpAddress::V4 { a: 0, b: 0, c: 0, d: 0 }, port: 9999 };
    let rows = vec![(a1, Vec::new()), (a2, vec![l])];
    let listing = shadow::web_server::proxy_listing(rows);
    assert_eq!(listing.len(), 1);
    assert_eq!(listing[0].0, a2);
    assert_eq!(listing[0].1, vec![l]);
}

#[test]
fn operation_grammar_ignores_case() {
    assert_eq!(
        shadow::web_client::parse_power_operation("sHuTdOwN"),
        Some(SystemPowerAction::Shutdown)
    );
    assert_eq!(
        shadow::web_client::parse_power_operation("sleep"),
        Some(SystemPowerAction::Sleep)
    );
    assert_eq!(shadow::web_client::parse_power_operation("Slumber"), None);
    assert_eq!(
        shadow::web_client::parse_file_operation("deletedir"),
        Some(FileOperation::DeleteDir)
    );
    assert_eq!(
        shadow::web_server::parse_query_operation("CLIENTS"),
        Some(shadow::web_server::QueryOperation::Clients)
    );
    assert_eq!(
        shadow::web_client::parse_proxy_type("socks5"),
        Some(shadow::web_client::ProxyType::Socks5)
    );
}

#[test]
fn proxy_defaults() {
    assert_eq!(shadow::web_client::default_addr(), "0.0.0.0");
    assert_eq!(shadow::web_client::default_port(), 9999);
    assert_eq!(shadow::web_client::default_user(), "mitsuha");
    assert_eq!(shadow::web_client::default_password(), "miyamizu");
}

#[test]
fn file_plan_demands_content_for_write() {
    match shadow::web_client::plan_file_action(FileOperation::Write, None, None) {
        Err(e) => assert_eq!(e.kind(), ErrorKind::ParamInvalid),
        Ok(_) => panic!("a write without content must be refused"),
    }
    match shadow::web_client::plan_file_action(FileOperation::Write, Some(vec![1, 2]), None) {
        Ok(FileAction::Write(c)) => assert_eq!(c, vec![1, 2]),
        _ => panic!("a write with content must carry it"),
    }
    assert!(matches!(
        shadow::web_client::plan_file_action(FileOperation::Create, None, Some(true)),
        Ok(FileAction::CreateDir)
    ));
    assert!(matches!(
        shadow::web_client::plan_file_action(FileOperation::Create, None, None),
        Ok(FileAction::CreateFile)
    ));
}

#[test]
fn process_plan_demands_pid_for_kill() {
    match shadow::web_client::plan_process_action(ProcessOperation::Kill, None) {
        Err(e) => assert_eq!(e.kind(), ErrorKind::ParamInvalid),
        Ok(_) => panic!("a kill without a pid must be refused"),
    }
    assert!(matches!(
        shadow::web_client::plan_process_action(ProcessOperation::Kill, Some(10)),
        Ok(ProcessAction::Kill(10))
    ));
}

#[test]
fn command_line_splitting() {
    let (exe, args) = shadow::command::parse_command_line("echo hello world").unwrap();
    assert_eq!(exe, "echo");
    assert_eq!(args, vec![String::from("hello"), String::from("world")]);

    let (exe, args) = shadow::command::parse_command_line("cat 'a b.txt'").unwrap();
    assert_eq!(exe, "cat");
    assert_eq!(args, vec![String::from("a b.txt")]);

    assert!(shadow::command::parse_command_line("").is_err());
    assert!(shadow::command::parse_command_line("'unclosed").is_err());
}

#[test]
fn execute_outcome_keeps_status_and_decodes_output() {
    let r = shadow::command::execute_outcome(String::from("exit status: 0"), b"hi").unwrap();
    assert_eq!(r.status, "exit status: 0");
    assert_eq!(r.output, "hi");
    let r = shadow::command::execute_outcome(String::from("exit status: 1"), b"").unwrap();
    assert_eq!(r.status, "exit status: 1");
    assert_eq!(r.output, "");
}

#[test]
fn execute_reply_classifies_the_decode() {
    let r = shadow::command::execute_reply(String::from("s"), Some(String::from("out"))).unwrap();
    assert_eq!(r.status, "s");
    assert_eq!(r.output, "out");
    match shadow::command::execute_reply(String::from("s"), None) {
        Err(shadow::error::ShadowError::IoError(m)) => {
            assert_eq!(m, "undecodable console output");
        },
        _ => panic!("a refused decode must be an I/O failure"),
    }
}
