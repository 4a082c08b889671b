use vdesk::viewer::api::{
    is_alive, login_outcome, request_url, sort_login, DeviceInfo, DiscoverDevice, LoginError,
    ViewerCall, ViewerHeartbeatData,
};
use vdesk::viewer::connection::{
    after_failed_attempt, agent_address, generate_nonce, handshake, is_accepted,
};
use vdesk::viewer::launch::{
    after_discovery, after_listing, closes_after, device_arg, device_to_link, direct_target,
    find_link, found_line, launch_mode, linked_line, parse_uri, reports_on_link, sends_global,
    stops_reporting, typed_device, uri_scheme_entries, DeviceStep, LaunchMode, UriError,
};

fn args(v: &[&str]) -> Vec<String> {
    v.iter().map(|s| s.to_string()).collect()
}

#[test]
fn link_is_parsed() {
    let p = parse_uri(
        "vdesk://connect?sessionKey=abc&connectToken=ct_1&relayIp=10.0.0.5&relayPort=7001&sessionId=42",
    )
    .unwrap();
    assert_eq!(p.session_key, "abc");
    assert_eq!(p.connect_token, "ct_1");
    assert_eq!(p.relay_ip, "10.0.0.5");
    assert_eq!((p.relay_port, p.session_id), (7001, 42));
    assert!(reports_on_link(&p));
}

#[test]
fn link_has_defaults() {
    let p = parse_uri("vdesk://connect?relayIp=h&sessionKey=k/").unwrap();
    assert_eq!(p.session_key, "k");
    assert_eq!(p.connect_token, "");
    assert_eq!((p.relay_port, p.session_id), (20020, 0));
    assert!(!reports_on_link(&p));
    let q = parse_uri("vdesk://connect?relayIp=h&sessionKey=k&relayPort=99999&sessionId=x").unwrap();
    assert_eq!((q.relay_port, q.session_id), (20020, 0));
}

#[test]
fn link_values_are_decoded_and_trimmed() {
    let p = parse_uri("vdesk://c? sessionKey = a%2Bb%2Fc=%3A &relayIp=%3A%3A1&x&=&a=b=c").unwrap();
    assert_eq!(p.session_key, "a+b/c=:");
    assert_eq!(p.relay_ip, "::1");
}

#[test]
fn later_pair_counts() {
    let p = parse_uri("v?sessionKey=a&relayIp=h&sessionKey=b").unwrap();
    assert_eq!(p.session_key, "b");
}

#[test]
fn link_errors() {
    assert_eq!(parse_uri("vdesk://connect").unwrap_err(), UriError::NoQuery);
    assert_eq!(parse_uri("vdesk://connect?relayIp=h").unwrap_err(), UriError::NoSessionKey);
    assert_eq!(parse_uri("vdesk://connect?sessionKey=k").unwrap_err(), UriError::NoRelayIp);
    assert_eq!(parse_uri("vdesk://connect?").unwrap_err(), UriError::NoSessionKey);
}

#[test]
fn first_link_among_arguments() {
    assert_eq!(find_link(&args(&["vdesk://x", "--a", "vdesk://y", "vdesk://z"])), Some(2));
    assert_eq!(find_link(&args(&["vdesk://x"])), None);
    assert_eq!(find_link(&args(&[])), None);
}

#[test]
fn way_of_launch() {
    assert_eq!(launch_mode(&args(&["v", "vdesk://x"]), Some("1")), LaunchMode::Link(1));
    assert_eq!(launch_mode(&args(&["v"]), Some("1")), LaunchMode::Direct);
    assert_eq!(launch_mode(&args(&["v"]), Some("0")), LaunchMode::Backend);
    assert_eq!(launch_mode(&args(&["v"]), None), LaunchMode::Backend);
    assert!(sends_global(LaunchMode::Direct, None));
    assert!(sends_global(LaunchMode::Backend, Some("1")));
    assert!(!sends_global(LaunchMode::Link(1), None));
}

#[test]
fn direct_settings() {
    let t = direct_target(None, None, None, None);
    assert_eq!((t.host.as_str(), t.port), ("127.0.0.1", 20020));
    assert_eq!((t.session_key.as_str(), t.connect_token.as_str()), ("direct", "direct"));
    let t = direct_target(Some("h"), Some("1"), Some("k"), Some("t"));
    assert_eq!((t.host.as_str(), t.port), ("h", 1));
    assert_eq!((t.session_key.as_str(), t.connect_token.as_str()), ("k", "t"));
}

#[test]
fn device_among_arguments() {
    assert_eq!(device_arg(&args(&["v", "--device", "12"])), Some(12));
    assert_eq!(device_arg(&args(&["v", "--device", "x", "--device", "3"])), Some(3));
    assert_eq!(device_arg(&args(&["v", "--device", "--device", "3"])), None);
    assert_eq!(device_arg(&args(&["v", "--device"])), None);
    assert_eq!(device_arg(&args(&["--device", "5"])), None);
    assert_eq!(device_arg(&args(&["v", "5"])), None);
}

#[test]
fn typed_numbers() {
    assert_eq!(typed_device(" 17\n"), Some(17));
    assert_eq!(typed_device("abc"), None);
    assert_eq!(typed_device(""), None);
}

fn linked(id: u64) -> DeviceInfo {
    DeviceInfo { device_id: id, device_name: "pc".to_string(), host_status: "ONLINE".to_string() }
}

fn found(id: u64) -> DiscoverDevice {
    DiscoverDevice {
        device_id: id,
        device_key: format!("k{}", id),
        host_name: "host".to_string(),
        os_type: "LINUX".to_string(),
    }
}

#[test]
fn choosing_a_device() {
    assert_eq!(after_listing(Some(&vec![linked(1)])), DeviceStep::ChooseLinked);
    assert_eq!(after_listing(Some(&vec![])), DeviceStep::Discover);
    assert_eq!(after_listing(None), DeviceStep::Discover);
    assert_eq!(after_discovery(Some(&vec![found(1)])), DeviceStep::ChooseFound);
    assert_eq!(after_discovery(Some(&vec![])), DeviceStep::NoDevice);
    assert_eq!(after_discovery(None), DeviceStep::Type);
    assert_eq!(device_to_link(&vec![found(1), found(2), found(2)], 2), Some(1));
    assert_eq!(device_to_link(&vec![found(1)], 2), None);
    assert_eq!(linked_line(&linked(7)), "  [7] pc (ONLINE)");
    assert_eq!(found_line(&found(8)), "  [8] host (LINUX)");
}

#[test]
fn reports_stop() {
    let go = ViewerHeartbeatData { status: "RUNNING".to_string(), should_terminate: false };
    let stop = ViewerHeartbeatData { status: "ENDED".to_string(), should_terminate: true };
    assert!(!stops_reporting(false, Some(&go)));
    assert!(!stops_reporting(false, None));
    assert!(stops_reporting(false, Some(&stop)));
    assert!(stops_reporting(true, None));
    assert!(closes_after(Some(false)));
    assert!(!closes_after(Some(true)) && !closes_after(None));
}

#[test]
fn viewer_urls() {
    let b = "http://h";
    assert_eq!(request_url(b, ViewerCall::Login), "http://h/api/auth/login");
    assert_eq!(request_url(b, ViewerCall::ListDevices), "http://h/api/user/device/list");
    assert_eq!(request_url(b, ViewerCall::DiscoverDevices), "http://h/api/user/device/discover");
    assert_eq!(request_url(b, ViewerCall::LinkDevice), "http://h/api/user/device/link");
    assert_eq!(request_url(b, ViewerCall::CreateSession), "http://h/api/remote/session/create");
    assert_eq!(
        request_url(b, ViewerCall::Heartbeat(12)),
        "http://h/api/remote/session/viewer/heartbeat/12"
    );
    assert_eq!(
        request_url(b, ViewerCall::HeartbeatByKey(0)),
        "http://h/api/remote/session/viewer/heartbeat-by-key/0"
    );
    assert_eq!(request_url(b, ViewerCall::EndSession(3)), "http://h/api/remote/session/end/3");
    assert_eq!(request_url(b, ViewerCall::Alive("k")), "http://h/api/remote/session/alive/k");
    assert_eq!(
        request_url(b, ViewerCall::EndSessionByKey("k")),
        "http://h/api/remote/session/end-by-key/k"
    );
}

#[test]
fn login_answers() {
    assert!(login_outcome(true, "{\"data\":null}").is_ok());
    assert!(matches!(login_outcome(false, "{\"message\":\"no\"}"), Err(LoginError::Refused(m)) if m == "no"));
    assert!(matches!(login_outcome(false, "{}"), Err(LoginError::Refused(m)) if m == "unknown"));
    assert!(matches!(login_outcome(false, "[]"), Err(LoginError::Refused(m)) if m == "unknown"));
    assert!(matches!(login_outcome(true, "<html>"), Err(LoginError::BadAnswer)));
    assert!(sort_login(true, None).is_ok());
    assert!(matches!(sort_login(false, None), Err(LoginError::Refused(m)) if m == "unknown"));
}

#[test]
fn alive_needs_a_clear_yes() {
    assert!(is_alive(true, Some(true)));
    assert!(!is_alive(true, Some(false)));
    assert!(!is_alive(true, None));
    assert!(!is_alive(false, Some(true)));
}

#[test]
fn way_to_the_agent() {
    assert_eq!(agent_address("10.0.0.1", 20020), "10.0.0.1:20020");
    assert!(is_accepted(&[1]));
    assert!(is_accepted(&[1, 0]));
    assert!(!is_accepted(&[0]));
    assert!(!is_accepted(&[]));
    assert_eq!(after_failed_attempt(59_999, 60_000), Some(1000));
    assert_eq!(after_failed_attempt(60_000, 60_000), None);
}

#[test]
fn handshake_is_used_once() {
    let n = generate_nonce();
    assert_eq!(n.len(), 36);
    assert_eq!(&n[14..15], "4");
    assert_ne!(n, generate_nonce());
    let m = handshake("sk", "ct");
    assert_eq!((m.session_key.as_str(), m.connect_token.as_str()), ("sk", "ct"));
    assert_eq!(m.viewer_nonce.matches('-').count(), 4);
}

#[test]
fn registry_entries_of_the_scheme() {
    let e = uri_scheme_entries("C:\\v.exe");
    assert_eq!(e.len(), 4);
    assert_eq!(e[0].key, "HKCU\\SOFTWARE\\Classes\\vdesk");
    assert_eq!((e[0].name.as_str(), e[0].value.as_str()), ("/ve", "VDesk Remote Viewer"));
    assert_eq!((e[1].name.as_str(), e[1].value.as_str()), ("URL Protocol", ""));
    assert_eq!(e[2].value, "\"C:\\v.exe\",0");
    assert_eq!(e[3].key, "HKCU\\SOFTWARE\\Classes\\vdesk\\shell\\open\\command");
    assert_eq!(e[3].value, "\"C:\\v.exe\" \"%1\"");
}

fn told(uri: &str) -> (String, String, String, u16, u64) {
    let p = parse_uri(uri).unwrap();
    (p.session_key, p.connect_token, p.relay_ip, p.relay_port, p.session_id)
}

#[test]
fn order_unknown_names_and_repeats_do_not_matter() {
    let plain = told("vdesk://connect?sessionKey=k&relayIp=h&relayPort=7&sessionId=9");
    assert_eq!(plain, told("vdesk://connect?sessionId=9&relayPort=7&relayIp=h&sessionKey=k"));
    assert_eq!(plain, told("vdesk://connect?sessionKey=k&u=1&relayIp=h&relayPort=7&v&sessionId=9"));
    assert_eq!(
        plain,
        told("vdesk://connect?relayIp=x&sessionKey=k&relayPort=bad&relayIp=h&relayPort=7&sessionId=9")
    );
    assert_eq!(
        parse_uri("vdesk://connect?sessionKey=k&u=1").unwrap_err(),
        parse_uri("vdesk://connect?u=1&sessionKey=k").unwrap_err()
    );
}
