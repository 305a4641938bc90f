use wardian_state::engine::{
    discover_engine, endpoint_poll, engine_candidates, launch_flags, macos_engine_candidates, parse_endpoint,
    windows_engine_candidates, EndpointPoll, EngineBinary, EngineError, EngineKind,
};

#[test]
fn parses_a_complete_port_file() {
    let parsed = parse_endpoint("52134\n/devtools/browser/abc-123\n");
    assert_eq!(parsed.as_deref(), Some("ws://127.0.0.1:52134/devtools/browser/abc-123"));
}

#[test]
fn rejects_a_port_file_that_is_still_being_written() {
    assert_eq!(parse_endpoint("52134\n"), None);
    assert_eq!(parse_endpoint("52134"), None);
    assert_eq!(parse_endpoint(""), None);
}

#[test]
fn rejects_a_port_file_with_a_non_numeric_port() {
    assert_eq!(parse_endpoint("not-a-port\n/devtools/browser/x"), None);
}

#[test]
fn launch_flags_isolate_the_profile_and_pick_an_ephemeral_port() {
    let flags = launch_flags("/tmp/profile", 1280, 800);
    assert!(flags.iter().any(|flag| flag == "--remote-debugging-port=0"));
    assert!(flags.iter().any(|flag| flag.starts_with("--user-data-dir=")));
    assert!(flags.iter().any(|flag| flag == "--window-size=1280,800"));
}

#[test]
fn a_port_file_with_crlf_lines_and_no_leading_slash_still_parses() {
    assert_eq!(
        parse_endpoint(" 9222 \r\ndevtools/browser/x\r\n").as_deref(),
        Some("ws://127.0.0.1:9222/devtools/browser/x")
    );
}

#[test]
fn candidates_are_offered_in_a_stable_preference_order() {
    let candidates = engine_candidates();
    assert!(!candidates.is_empty(), "every supported platform must offer at least one candidate");
    let first = candidates.first().expect("candidate");
    assert_eq!(first.kind, EngineKind::Chrome);
    assert_eq!(first.path, "/usr/bin/google-chrome");
    assert_eq!(candidates.len(), 24);
    assert_eq!(candidates[4].path, "/usr/bin/google-chrome-stable");
    assert_eq!(candidates[23].path, "/opt/google/chrome/brave-browser");
    assert_eq!(candidates[23].kind, EngineKind::Brave);
    let windows = windows_engine_candidates("C:\\Program Files (x86)", "", "C:\\Users\\u\\AppData\\Local\\");
    assert_eq!(windows.len(), 8);
    assert_eq!(windows[0].kind, EngineKind::Edge);
    assert_eq!(windows[0].path, "C:\\Program Files (x86)\\Microsoft\\Edge\\Application\\msedge.exe");
    assert_eq!(windows[1].path, "C:\\Users\\u\\AppData\\Local\\Microsoft\\Edge\\Application\\msedge.exe");
    let mac = macos_engine_candidates();
    assert_eq!(mac.len(), 4);
    assert_eq!(mac[0].kind, EngineKind::Chrome);
}

fn binary(kind: EngineKind, path: &str) -> EngineBinary {
    EngineBinary { kind, path: path.to_string() }
}

#[test]
fn discovery_prefers_the_override_then_the_first_present_candidate() {
    let candidates = vec![binary(EngineKind::Chrome, "/a/chrome"), binary(EngineKind::Edge, "/b/edge")];
    assert_eq!(
        discover_engine(Some("/x/browser".to_string()), true, candidates.clone(), &vec![true, true]),
        Ok(binary(EngineKind::Custom, "/x/browser"))
    );
    assert_eq!(
        discover_engine(Some("/x/browser".to_string()), false, candidates.clone(), &vec![true, true]),
        Err(EngineError::OverrideMissing { path: "/x/browser".to_string() })
    );
    assert_eq!(
        discover_engine(Some(String::new()), false, candidates.clone(), &vec![false, true]),
        Ok(binary(EngineKind::Edge, "/b/edge"))
    );
    assert_eq!(
        discover_engine(None, false, candidates.clone(), &vec![false, false]),
        Err(EngineError::NotFound { searched: vec!["/a/chrome".to_string(), "/b/edge".to_string()] })
    );
}

#[test]
fn a_launch_poll_waits_for_the_endpoint_and_reports_exits_and_timeouts() {
    assert_eq!(
        endpoint_poll("/a/chrome", Some("9222\n/devtools/browser/x\n".to_string()), Some("exit 1".to_string()), true),
        EndpointPoll::Ready("ws://127.0.0.1:9222/devtools/browser/x".to_string())
    );
    assert_eq!(
        endpoint_poll("/a/chrome", Some("9222\n".to_string()), Some("exit 1".to_string()), false),
        EndpointPoll::Failed(EngineError::Exited { path: "/a/chrome".to_string(), status: "exit 1".to_string() })
    );
    assert_eq!(
        endpoint_poll("/a/chrome", None, None, true),
        EndpointPoll::Failed(EngineError::EndpointTimeout { path: "/a/chrome".to_string() })
    );
    assert_eq!(endpoint_poll("/a/chrome", None, None, false), EndpointPoll::Wait);
}
