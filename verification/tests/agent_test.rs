use vdesk::agent::api::{request_url, ActivateByPathData, AgentCall, PollData};
use vdesk::agent::control_ws::{
    clipboard_words, control_url, handle_message, next_backoff, next_fetch_step, paste_keys,
    sort_message, BadMessage, ControlAction, FetchStep, PasteKey,
};
use vdesk::agent::lifecycle::{
    after_end_attempt, heartbeat_due, heartbeat_request, local_box_of, new_local_box, next_errand,
    pause_after, session_report, session_report_due, session_to_activate, stored_local_box, take_up,
    Errand, NoSession,
};
use vdesk::agent::state::{new_state, AgentState};
use vdesk::backend::{base_url, extract, is_success, ApiError};

fn activated() -> ActivateByPathData {
    ActivateByPathData { session_key: "sk".to_string(), status: "PENDING".to_string() }
}

#[test]
fn agent_goes_from_idle_to_streaming_and_back() {
    let mut s = new_state();
    assert!(s.is_idle());
    assert_eq!(s.session_key(), None);
    assert!(s.accept().is_none());
    let end = take_up(&mut s, &activated(), "dk");
    assert_eq!((end.session_key.as_str(), end.device_key.as_str()), ("sk", "dk"));
    assert!(!s.is_idle());
    assert_eq!(s.session_key(), Some("sk"));
    assert_eq!(s.accept(), Some(("sk".to_string(), "dk".to_string())));
    assert!(matches!(s, AgentState::Streaming { .. }));
    assert_eq!(s.session_key(), Some("sk"));
    assert!(s.accept().is_none());
    assert!(!s.pending_timed_out());
    assert!(matches!(s, AgentState::Streaming { .. }));
    s.session_ended();
    assert!(s.is_idle());
}

#[test]
fn pending_session_is_given_up() {
    let mut s = new_state();
    s.activated("sk", "dk");
    s.pending_checked(None);
    s.pending_checked(Some(false));
    assert!(!s.is_idle());
    s.pending_checked(Some(true));
    assert!(s.is_idle());
    s.activated("sk", "dk");
    assert!(s.pending_timed_out());
    assert!(s.is_idle());
    assert!(!s.pending_timed_out());
}

#[test]
fn heartbeat_tells_the_state() {
    assert!(!heartbeat_due(9_999));
    assert!(heartbeat_due(10_000));
    let mut s = new_state();
    let r = heartbeat_request(&s, "dk", "10.0.0.1", 20020, "1.0");
    assert!(r.session_acceptable && r.current_session_key.is_none());
    assert_eq!(r.agent_status, "ONLINE");
    assert_eq!((r.device_key.as_str(), r.relay_ip.as_str(), r.relay_port), ("dk", "10.0.0.1", 20020));
    assert_eq!(r.app_version, "1.0");
    s.activated("sk", "dk");
    let r = heartbeat_request(&s, "dk", "10.0.0.1", 20020, "1.0");
    assert!(!r.session_acceptable);
    assert_eq!(r.current_session_key, Some("sk".to_string()));
}

#[test]
fn errands_follow_the_state() {
    let mut s = new_state();
    let e = next_errand(&s, "dk");
    assert!(matches!(&e, Errand::Poll(r) if r.device_key == "dk"));
    assert_eq!(pause_after(&e), 3_000);
    s.activated("sk", "other");
    let e = next_errand(&s, "dk");
    assert!(matches!(&e, Errand::CheckPending(r) if r.device_key == "other" && r.session_key == "sk"));
    assert_eq!(pause_after(&e), 1_000);
    s.accept();
    let e = next_errand(&s, "dk");
    assert!(matches!(&e, Errand::Nothing));
    assert_eq!(pause_after(&e), 1_000);
}

#[test]
fn poll_names_the_session() {
    let none = PollData { has_pending_session: false, session_key: Some("k".to_string()) };
    assert_eq!(session_to_activate(none), Err(NoSession::NotWaiting));
    let no_key = PollData { has_pending_session: true, session_key: None };
    assert_eq!(session_to_activate(no_key), Err(NoSession::NoKey));
    let some = PollData { has_pending_session: true, session_key: Some("k".to_string()) };
    assert_eq!(session_to_activate(some), Ok("k".to_string()));
}

#[test]
fn end_is_reported_up_to_three_times() {
    assert_eq!(after_end_attempt(1, true), None);
    assert_eq!(after_end_attempt(1, false), Some(500));
    assert_eq!(after_end_attempt(2, false), Some(500));
    assert_eq!(after_end_attempt(3, false), None);
}

#[test]
fn machine_keeps_its_stored_name() {
    assert_eq!(stored_local_box(" box12\n"), Some("box12".to_string()));
    assert_eq!(stored_local_box(" \r\n"), None);
    assert_eq!(
        local_box_of("01234567-89ab-4cde-8f01-23456789abcd"),
        "box0123456789ab4cde"
    );
}

#[test]
fn machine_gets_a_new_name() {
    let a = new_local_box();
    assert_eq!(a.len(), 19);
    assert!(a.starts_with("box"));
    assert!(a[3..].chars().all(|c| c.is_ascii_hexdigit()));
    assert_eq!(&a[15..16], "4");
    assert_ne!(a, new_local_box());
}

#[test]
fn agent_urls() {
    let b = "http://h:8080";
    assert_eq!(request_url(b, AgentCall::Register), "http://h:8080/api/agent/register");
    assert_eq!(request_url(b, AgentCall::Heartbeat), "http://h:8080/api/agent/heartbeat");
    assert_eq!(request_url(b, AgentCall::Poll), "http://h:8080/api/agent/session/poll");
    assert_eq!(
        request_url(b, AgentCall::Activate("s1")),
        "http://h:8080/api/agent/session/activate/s1"
    );
    assert_eq!(
        request_url(b, AgentCall::CheckPending),
        "http://h:8080/api/agent/session/check-pending"
    );
    assert_eq!(request_url(b, AgentCall::EndSession), "http://h:8080/api/agent/session/end");
}

#[test]
fn answers_of_the_backend() {
    assert_eq!(extract(None, Some(7)), Ok(7));
    assert_eq!(extract(Some(200), Some(7)), Ok(7));
    assert_eq!(extract(Some(500), Some(7)), Err(ApiError::Refused));
    assert_eq!(extract::<i32>(Some(200), None), Err(ApiError::NoResult));
    assert!(is_success(200) && is_success(299));
    assert!(!is_success(199) && !is_success(300));
    assert_eq!(base_url(None, "http://localhost:8080"), "http://localhost:8080");
    assert_eq!(base_url(Some("https://x"), "http://localhost:8080"), "https://x");
}

#[test]
fn control_channel_address() {
    assert_eq!(control_url("https://a.b", "dk"), "wss://a.b/api/agent/ws/dk");
    assert_eq!(control_url("http://a.b:8080", "dk"), "ws://a.b:8080/api/agent/ws/dk");
    assert_eq!(control_url("a.b", "dk"), "a.b/api/agent/ws/dk");
}

#[test]
fn backoff_doubles_up_to_thirty() {
    let mut secs = 1;
    let mut seen = vec![secs];
    for _ in 0..6 {
        secs = next_backoff(secs);
        seen.push(secs);
    }
    assert_eq!(seen, vec![1, 2, 4, 8, 16, 30, 30]);
}

#[test]
fn clipboard_message() {
    let m = handle_message("{\"type\":\"clipboard\",\"text\":\"hi \\u00e9\"}");
    assert!(matches!(m, Ok(ControlAction::Paste(t)) if t == "hi \u{e9}"));
    assert!(matches!(handle_message("{\"type\":\"clipboard\"}"), Ok(ControlAction::Nothing)));
    assert!(matches!(
        handle_message("{\"type\":\"clipboard\",\"text\":\"\"}"),
        Ok(ControlAction::Nothing)
    ));
    assert!(matches!(
        handle_message("{\"type\":\"clipboard\",\"text\":5}"),
        Ok(ControlAction::Nothing)
    ));
}

#[test]
fn file_message() {
    let m = handle_message("{\"type\":\"file_ready\",\"fileId\":\"f1\",\"filename\":\"a.txt\"}");
    assert!(matches!(m, Ok(ControlAction::Fetch { file_id, filename })
        if file_id == "f1" && filename == "a.txt"));
    let m = handle_message("{\"type\":\"file_ready\",\"fileId\":\"f1\"}");
    assert!(matches!(m, Ok(ControlAction::Fetch { filename, .. }) if filename == "file"));
    assert!(matches!(handle_message("{\"type\":\"file_ready\"}"), Ok(ControlAction::Nothing)));
}

#[test]
fn other_messages() {
    assert!(matches!(handle_message("{\"type\":\"ping\"}"), Ok(ControlAction::Nothing)));
    assert!(matches!(handle_message("[1]"), Ok(ControlAction::Nothing)));
    assert_eq!(handle_message("{").unwrap_err(), BadMessage {});
    assert_eq!(handle_message("").unwrap_err(), BadMessage {});
}

#[test]
fn messages_are_sorted_by_type() {
    let s = |t: &str| Some(t.to_string());
    assert!(matches!(sort_message(None, s("x"), s("y"), None), ControlAction::Nothing));
    assert!(matches!(sort_message(s("clipboard"), s("x"), s("y"), None), ControlAction::Paste(t) if t == "x"));
    assert!(matches!(sort_message(s("file_ready"), s("x"), None, None), ControlAction::Nothing));
}

#[test]
fn clipboard_takes_utf16() {
    assert_eq!(clipboard_words(""), vec![0]);
    for t in ["abc", "\u{AC00}\u{E000}", "a\u{1F600}\u{10FFFF}"] {
        let mut want: Vec<u16> = t.encode_utf16().collect();
        want.push(0);
        assert_eq!(clipboard_words(t), want);
    }
}

#[test]
fn pasting_is_control_and_v() {
    let key = |vk: u8, flags: u32| PasteKey { vk, flags };
    assert_eq!(paste_keys(), vec![key(0x11, 0), key(0x56, 0), key(0x56, 2), key(0x11, 2)]);
}

#[test]
fn session_is_reported_every_fifteen_seconds() {
    assert!(!session_report_due(0, 0));
    assert!(!session_report_due(14_999, 0));
    assert!(session_report_due(15_000, 0));
    assert!(!session_report_due(15_000, 1));
    assert!(!session_report_due(29_999, 1));
    assert!(session_report_due(30_000, 1));
    assert!(session_report_due(60_000, 1));
    assert!(!session_report_due(u64::MAX, u64::MAX));
}

#[test]
fn session_report_names_session() {
    let r = session_report("dk", "sk", 7, 5);
    assert_eq!((r.device_key.as_str(), r.session_key.as_str()), ("dk", "sk"));
    assert_eq!((r.bytes_out, r.bytes_in), (7, 5));
}

#[test]
fn file_is_stored_then_confirmed() {
    assert_eq!(next_fetch_step(FetchStep::Download, true), FetchStep::Store);
    assert_eq!(next_fetch_step(FetchStep::Store, true), FetchStep::Confirm);
    assert_eq!(next_fetch_step(FetchStep::Confirm, true), FetchStep::Done);
    assert_eq!(next_fetch_step(FetchStep::Done, true), FetchStep::Done);
    assert_eq!(next_fetch_step(FetchStep::Download, false), FetchStep::Done);
    assert_eq!(next_fetch_step(FetchStep::Store, false), FetchStep::Done);
}
