use base64::Engine;
use dragabyte::jsonio;
use dragabyte::types::ScanEvent;
use dragabyte::protocol::{
    ErrorCode, Handled, HubState, LineAccumulator, ListEntry, ListPlan, RemoteEnvelope,
    RemoteRequest, ReplyEvent, MAX_CONNECTIONS, MAX_LINE_LENGTH, MAX_READ_BYTES,
    UNAUTHORIZED_DELAY_MS, disk_decision, handle_request, list_entries, list_plan, list_reply,
    read_decision, read_payload,
};

fn ping(id: Option<&str>) -> RemoteRequest {
    RemoteRequest::Ping { id: id.map(|s| s.to_string()) }
}

fn envelope(token: Option<&str>, request: RemoteRequest) -> RemoteEnvelope {
    RemoteEnvelope { token: token.map(|s| s.to_string()), request }
}

fn handle(hub: &mut HubState, env: RemoteEnvelope) -> Handled {
    handle_request(hub, &env, true, 4)
}

#[test]
fn limits_match_the_wire_contract() {
    assert_eq!(MAX_LINE_LENGTH, 10 * 1024 * 1024);
    assert_eq!(MAX_READ_BYTES, 5 * 1024 * 1024);
    assert_eq!(MAX_CONNECTIONS, 50);
    assert_eq!(UNAUTHORIZED_DELAY_MS, 2000);
}

#[test]
fn wrong_token_is_unauthorized_and_delayed() {
    let mut hub = HubState::new(Some("secret".to_string()), true);
    let r = handle(&mut hub, envelope(Some("wrong"), ping(Some("7"))));
    assert!(r.delay_ms >= 2000);
    match r.reply {
        ReplyEvent::Error { id, code } => {
            assert_eq!(id.as_deref(), Some("7"));
            assert_eq!(code, ErrorCode::Unauthorized);
            assert_eq!(code.as_str(), "unauthorized");
        }
        _ => panic!("expected the unauthorized error"),
    }
    assert!(r.start_scan.is_none());
}

#[test]
fn missing_token_is_unauthorized_when_one_is_configured() {
    let mut hub = HubState::new(Some("secret".to_string()), true);
    let r = handle(&mut hub, envelope(None, ping(None)));
    assert_eq!(r.delay_ms, UNAUTHORIZED_DELAY_MS);
    assert!(matches!(r.reply, ReplyEvent::Error { code: ErrorCode::Unauthorized, .. }));
}

#[test]
fn matching_token_is_authorized_without_delay() {
    let mut hub = HubState::new(Some("secret".to_string()), true);
    let r = handle(&mut hub, envelope(Some("secret"), ping(Some("1"))));
    assert_eq!(r.delay_ms, 0);
    assert!(matches!(r.reply, ReplyEvent::Pong { .. }));
}

#[test]
fn no_configured_token_authorizes_everything() {
    let mut hub = HubState::new(None, false);
    let r = handle(&mut hub, envelope(None, ping(None)));
    assert_eq!(r.delay_ms, 0);
    assert!(matches!(r.reply, ReplyEvent::Pong { .. }));
}

fn scan_request(id: &str) -> RemoteRequest {
    RemoteRequest::Scan { id: Some(id.to_string()), path: "/tmp".to_string(), options: None }
}

#[test]
fn second_scan_request_gets_scan_in_progress() {
    let mut hub = HubState::new(None, true);
    let first = handle(&mut hub, envelope(None, scan_request("a")));
    assert!(matches!(first.reply, ReplyEvent::ScanStarted { .. }));
    assert!(first.start_scan.is_some());
    assert!(hub.scan_active);

    let second = handle(&mut hub, envelope(None, scan_request("b")));
    match second.reply {
        ReplyEvent::Error { id, code } => {
            assert_eq!(id.as_deref(), Some("b"));
            assert_eq!(code, ErrorCode::ScanInProgress);
        }
        _ => panic!("expected scan-in-progress"),
    }
    assert!(second.start_scan.is_none(), "no second traversal may start");
    assert!(hub.scan_active);

    hub.finish_scan();
    let third = handle(&mut hub, envelope(None, scan_request("c")));
    assert!(matches!(third.reply, ReplyEvent::ScanStarted { .. }));
    assert!(third.start_scan.is_some());
}

#[test]
fn scan_of_missing_path_is_path_not_found() {
    let mut hub = HubState::new(None, true);
    let r = handle_request(&mut hub, &envelope(None, scan_request("x")), false, 4);
    assert!(matches!(r.reply, ReplyEvent::Error { code: ErrorCode::PathNotFound, .. }));
    assert!(!hub.scan_active);
}

#[test]
fn scan_with_invalid_options_reports_the_error() {
    let mut filters = dragabyte::filter::ScanFilters::none();
    filters.min_size_bytes = Some(9);
    filters.max_size_bytes = Some(1);
    let options = dragabyte::options::ScanOptions {
        priority_mode: dragabyte::options::ScanPriorityMode::Low,
        throttle_level: dragabyte::options::ScanThrottleLevel::Off,
        filters,
    };
    let req = RemoteRequest::Scan {
        id: None,
        path: "/tmp".to_string(),
        options: Some(options),
    };
    let mut hub = HubState::new(None, true);
    let r = handle(&mut hub, envelope(None, req));
    assert!(matches!(r.reply, ReplyEvent::Error { code: ErrorCode::InvalidRange, .. }));
    assert!(!hub.scan_active, "a rejected scan claims nothing");
}

#[test]
fn cancel_depends_on_an_active_handle() {
    let mut hub = HubState::new(None, true);
    let none = handle(&mut hub, envelope(None, RemoteRequest::Cancel { id: None }));
    assert!(matches!(none.reply, ReplyEvent::NoActiveScan { .. }));
    assert!(!none.do_cancel);

    assert!(hub.begin_scan());
    let some = handle(&mut hub, envelope(None, RemoteRequest::Cancel { id: None }));
    assert!(matches!(some.reply, ReplyEvent::CancelRequested { .. }));
    assert!(some.do_cancel);
}

#[test]
fn shutdown_is_headless_only() {
    let mut headless = HubState::new(None, true);
    let ok = handle(&mut headless, envelope(None, RemoteRequest::Shutdown { id: None }));
    assert!(matches!(ok.reply, ReplyEvent::Shutdown { .. }));
    assert!(ok.do_shutdown);

    let mut windowed = HubState::new(None, false);
    let no = handle(&mut windowed, envelope(None, RemoteRequest::Shutdown { id: None }));
    assert!(matches!(no.reply, ReplyEvent::Error { code: ErrorCode::ShutdownNotAllowed, .. }));
    assert!(!no.do_shutdown);
}

#[test]
fn connection_limit_is_enforced_by_can_accept() {
    let mut hub = HubState::new(None, true);
    hub.client_count = 49;
    assert!(hub.can_accept());
    hub.client_count = 50;
    assert!(!hub.can_accept());
}

#[test]
fn read_decision_orders_its_checks() {
    assert_eq!(read_decision(false, false, 0), Some(ErrorCode::PathNotFound));
    assert_eq!(read_decision(true, false, 0), Some(ErrorCode::NotAFile));
    assert_eq!(read_decision(true, true, 6 * 1024 * 1024), Some(ErrorCode::FileTooLarge));
    assert_eq!(read_decision(true, true, 5 * 1024 * 1024), None);
    assert_eq!(read_decision(true, true, 10), None);
}

#[test]
fn read_payload_encodes_the_bytes() {
    let bytes: Vec<u8> = vec![0, 1, 2, 250, 251, 252, 65, 66, 67, 68];
    let p = read_payload("/f.bin", &bytes);
    assert_eq!(p.path, "/f.bin");
    let decoded = base64::prelude::BASE64_STANDARD.decode(p.content.as_bytes()).unwrap();
    assert_eq!(decoded, bytes);
}

#[test]
fn list_plan_resolves_roots_and_targets() {
    assert!(matches!(list_plan(&None, false), ListPlan::Roots));
    assert!(matches!(list_plan(&Some("   ".to_string()), false), ListPlan::Roots));
    assert!(matches!(list_plan(&Some("/".to_string()), true), ListPlan::Roots));
    match list_plan(&Some("  /home ".to_string()), false) {
        ListPlan::Dir(d) => assert_eq!(d, "/home"),
        _ => panic!("expected a directory target"),
    }
    match list_plan(&Some("/".to_string()), false) {
        ListPlan::Dir(d) => assert_eq!(d, "/"),
        _ => panic!("expected a directory target"),
    }
}

fn entry(name: &str, is_dir: bool) -> ListEntry {
    ListEntry { name: name.to_string(), path: format!("/x/{}", name), is_dir }
}

#[test]
fn list_keeps_only_directories_sorted_case_insensitively() {
    let raw = vec![
        entry("zeta", true),
        entry("a-file.txt", false),
        entry("Alpha", true),
        entry("beta", true),
    ];
    let out = list_entries(raw);
    let names: Vec<&str> = out.iter().map(|e| e.name.as_str()).collect();
    assert_eq!(names, vec!["Alpha", "beta", "zeta"]);
    assert!(out.iter().all(|e| e.is_dir));
}

#[test]
fn list_reply_reports_missing_paths() {
    assert!(matches!(list_reply(false, Vec::new()), Err(ErrorCode::PathNotFound)));
    let ok = list_reply(true, vec![entry("d", true)]).unwrap();
    assert_eq!(ok.len(), 1);
}

#[test]
fn disk_decision_covers_every_outcome() {
    assert!(matches!(disk_decision("/p", false, None, None), Err(ErrorCode::PathNotFound)));
    assert!(matches!(
        disk_decision("/p", true, None, Some(1)),
        Err(ErrorCode::DiskUsageFailed)
    ));
    let ok = disk_decision("/p", true, Some(100), Some(40)).unwrap();
    assert_eq!((ok.path.as_str(), ok.total_bytes, ok.free_bytes), ("/p", 100, 40));
}

#[test]
fn framing_finds_newlines_and_enforces_the_cap() {
    let mut acc = LineAccumulator::new(8);
    let out = acc.push_chunk(b"ab");
    assert_eq!((out.consumed, out.complete, out.overflow), (2, false, false));
    let out = acc.push_chunk(b"cd\nrest");
    assert_eq!((out.consumed, out.complete, out.overflow), (3, true, false));
    let line = acc.take_line().unwrap();
    assert_eq!(line, "abcd\n");

    let mut acc = LineAccumulator::new(4);
    let out = acc.push_chunk(b"toolongline");
    assert!(out.overflow);
    assert!(!out.complete);
}

#[test]
fn framing_rejects_invalid_utf8() {
    let mut acc = LineAccumulator::new(100);
    let out = acc.push_chunk(&[0xffu8, 0xfe, b'\n']);
    assert!(out.complete);
    assert!(acc.take_line().is_none());
}

#[test]
fn decode_request_understands_every_action() {
    let env = jsonio::decode_request(r#"{"action":"ping","id":"1"}"#).unwrap();
    assert!(matches!(env.request, RemoteRequest::Ping { .. }));
    assert!(env.token.is_none());

    let env = jsonio::decode_request(r#"{"action":"list","token":"t"}"#).unwrap();
    assert_eq!(env.token.as_deref(), Some("t"));
    assert!(matches!(env.request, RemoteRequest::List { path: None, .. }));

    let env = jsonio::decode_request(r#"{"action":"disk","path":"/x"}"#).unwrap();
    match env.request {
        RemoteRequest::Disk { path, .. } => assert_eq!(path, "/x"),
        _ => panic!("expected a disk request"),
    }

    let env = jsonio::decode_request(r#"{"action":"read","path":"/y","id":"9"}"#).unwrap();
    assert!(matches!(env.request, RemoteRequest::Read { .. }));

    let env = jsonio::decode_request(r#"{"action":"cancel"}"#).unwrap();
    assert!(matches!(env.request, RemoteRequest::Cancel { .. }));

    let env = jsonio::decode_request(r#"{"action":"shutdown"}"#).unwrap();
    assert!(matches!(env.request, RemoteRequest::Shutdown { .. }));
}

#[test]
fn decode_request_parses_scan_options() {
    let line = r#"{"action":"scan","path":"/data","options":{"priorityMode":"low","throttleLevel":"high","filters":{"includeExtensions":["TXT"],"excludeExtensions":[],"includeNames":[],"excludeNames":[],"includePaths":[],"excludePaths":[],"minSizeBytes":5}}}"#;
    let env = jsonio::decode_request(line).unwrap();
    match env.request {
        RemoteRequest::Scan { path, options, .. } => {
            assert_eq!(path, "/data");
            let o = options.unwrap();
            assert_eq!(o.priority_mode, dragabyte::options::ScanPriorityMode::Low);
            assert_eq!(o.throttle_level, dragabyte::options::ScanThrottleLevel::High);
            assert_eq!(o.filters.include_extensions, vec!["TXT".to_string()]);
            assert_eq!(o.filters.min_size_bytes, Some(5));
            assert_eq!(o.filters.max_size_bytes, None);
        }
        _ => panic!("expected a scan request"),
    }
}

#[test]
fn decode_request_rejects_malformed_lines() {
    assert!(jsonio::decode_request("not json at all").is_none());
    assert!(jsonio::decode_request("42").is_none());
    assert!(jsonio::decode_request(r#"{"action":"fly"}"#).is_none());
    assert!(jsonio::decode_request(r#"{"action":"disk"}"#).is_none());
    assert!(jsonio::decode_request(r#"{"id":"1"}"#).is_none());
    // Malformed options are a decode error, not silently defaulted.
    assert!(
        jsonio::decode_request(r#"{"action":"scan","path":"/x","options":{"priorityMode":"warp"}}"#)
            .is_none()
    );
}

#[test]
fn outbound_payload_injects_the_token_once() {
    let v = jsonio::json_parse(r#"{"action":"ping"}"#).unwrap();
    let line = jsonio::build_remote_payload(v, &Some("tok".to_string())).unwrap();
    assert!(line.ends_with('\n'));
    let back: serde_json::Value = serde_json::from_str(line.trim()).unwrap();
    assert_eq!(back.get("token").and_then(|t| t.as_str()), Some("tok"));

    let v = jsonio::json_parse(r#"{"token":"mine"}"#).unwrap();
    let line = jsonio::build_remote_payload(v, &Some("tok".to_string())).unwrap();
    let back: serde_json::Value = serde_json::from_str(line.trim()).unwrap();
    assert_eq!(back.get("token").and_then(|t| t.as_str()), Some("mine"));

    // A non-object payload is rejected, with or without a configured token.
    let v = jsonio::json_parse("3").unwrap();
    assert!(jsonio::build_remote_payload(v, &Some("tok".to_string())).is_none());

    let v = jsonio::json_parse("3").unwrap();
    assert!(jsonio::build_remote_payload(v, &None).is_none());
}

#[test]
fn inbound_lines_are_tagged_with_their_origin() {
    let tagged = jsonio::tag_inbound_line(r#"{"event":"pong"}"#, "10.0.0.2:4799").unwrap();
    let back: serde_json::Value = serde_json::from_str(&tagged).unwrap();
    assert_eq!(back.get("_address").and_then(|a| a.as_str()), Some("10.0.0.2:4799"));
    assert!(jsonio::tag_inbound_line("oops", "addr").is_none());
}

#[test]
fn event_names_match_the_wire_vocabulary() {
    assert_eq!(ScanEvent::Error("e".to_string()).event_name(), "scan-error");
    assert_eq!(ScanEvent::Cancelled("c".to_string()).event_name(), "scan-cancelled");
}

#[test]
fn inbound_non_object_lines_pass_through_untagged() {
    // A well-formed non-object inbound value is forwarded as it came.
    assert_eq!(jsonio::tag_inbound_line("42", "addr").as_deref(), Some("42"));
}
