use wardian_state::zellij::{
    parse_created_pane_id, parse_created_pane_text, powershell_single_quoted, redact_zellij_error, render_zellij_snapshot,
    session_name_for_identity, validate_launch_spec, windows_home_identity, BundleProbe, ZellijLaunchSpec, ZellijPaneId, ZellijTerminalConfig,
};

#[test]
fn pane_id_parser_ignores_startup_noise_but_requires_terminal_identity() {
    assert_eq!(
        parse_created_pane_id(b"startup notice\r\nterminal_42\r\n").unwrap().as_str(),
        "terminal_42"
    );
    assert!(parse_created_pane_id(b"plugin_4").is_err());
}

#[test]
fn the_created_pane_is_read_from_the_text_of_the_output() {
    assert_eq!(parse_created_pane_id(b"terminal_7\n").unwrap().as_str(), "terminal_7");
    assert_eq!(parse_created_pane_text("terminal_7\n").unwrap().as_str(), "terminal_7");
    assert_eq!(parse_created_pane_text("terminal_3 terminal_9").unwrap().as_str(), "terminal_9");
    assert_eq!(
        parse_created_pane_text("no pane here").unwrap_err(),
        "Zellij did not return the created pane identity"
    );
}

#[test]
fn pane_update_renders_as_a_complete_terminal_frame() {
    let frame = render_zellij_snapshot(
        Some(vec!["older".to_string()]),
        vec!["current".to_string(), String::new()],
    );
    assert_eq!(frame, b"\x1b[3J\x1b[2J\x1b[Holder\r\ncurrent");
}

#[test]
fn launch_spec_rejects_invalid_environment_names_before_writing_a_file() {
    let launch = ZellijLaunchSpec {
        session_id: "agent-1".to_string(),
        executable: "provider".to_string(),
        args: Vec::new(),
        cwd: "workspace".to_string(),
        env: vec![("BAD=KEY".to_string(), "value".to_string())],
    };
    assert_eq!(
        validate_launch_spec(&launch),
        Err("Agent terminal launch specification is invalid".to_string())
    );
}

#[test]
fn a_complete_launch_spec_is_accepted() {
    let launch = ZellijLaunchSpec {
        session_id: "agent-1".to_string(),
        executable: "provider".to_string(),
        args: vec!["--flag".to_string()],
        cwd: "workspace".to_string(),
        env: vec![("KEY".to_string(), "value".to_string())],
    };
    assert_eq!(validate_launch_spec(&launch), Ok(()));
}

#[test]
fn pane_identities_are_terminal_panes_only() {
    assert_eq!(ZellijPaneId::parse(" terminal_3 ").unwrap().as_str(), "terminal_3");
    assert_eq!(
        ZellijPaneId::parse("plugin_3").unwrap_err(),
        "Zellij returned a non-terminal pane identity"
    );
    assert_eq!(
        ZellijPaneId::parse("terminal_x").unwrap_err(),
        "Zellij returned an invalid terminal pane identity"
    );
}

#[test]
fn session_names_are_deterministic_per_home_identity() {
    let first = session_name_for_identity(b"/home/one");
    assert_eq!(first, session_name_for_identity(b"/home/one"));
    assert_ne!(first, session_name_for_identity(b"/home/two"));
    assert!(first.starts_with("wardian-"));
    assert_eq!(first.len(), "wardian-".len() + 12);
}

#[test]
fn a_known_identity_gets_its_sha256_prefix() {
    // SHA-256 of the empty input begins e3b0c44298fc.
    assert_eq!(session_name_for_identity(b""), "wardian-e3b0c44298fc");
}

#[test]
fn zellij_errors_are_cut_and_redacted() {
    let lines = vec![
        "   ".to_string(),
        "failed to open /home/me/secret with token abc".to_string(),
        "second line".to_string(),
    ];
    assert_eq!(redact_zellij_error(&lines), "failed to open [redacted] with [redacted] abc");
    assert_eq!(redact_zellij_error(&[]), "terminal engine unavailable");
}

#[test]
fn powershell_quotes_double_embedded_quotes() {
    assert_eq!(powershell_single_quoted("it's"), "'it''s'");
    assert_eq!(powershell_single_quoted(""), "''");
}

#[test]
fn posix_home_namespaces_preserve_case_and_literal_backslashes() {
    let upper = session_name_for_identity(b"/tmp/Wardian/A");
    let lower = session_name_for_identity(b"/tmp/Wardian/a");
    let slash = session_name_for_identity(b"/tmp/Wardian/path");
    let backslash = session_name_for_identity(b"/tmp/Wardian\\path");

    assert_ne!(upper, lower);
    assert_ne!(slash, backslash);
    assert_eq!(upper, session_name_for_identity(b"/tmp/Wardian/A"));
    assert!(upper.starts_with("wardian-"));
    assert_eq!(upper.len(), "wardian-".len() + 12);
}

fn probe(zellij: (bool, bool), cli: (bool, bool)) -> BundleProbe {
    BundleProbe { zellij_direct: zellij.0, zellij_nested: zellij.1, cli_direct: cli.0, cli_nested: cli.1 }
}

#[test]
fn a_configuration_needs_both_bundled_binaries() {
    let missing_zellij = ZellijTerminalConfig::from_resources("/res", "/home/w", false, probe((false, false), (true, false)));
    assert_eq!(missing_zellij.unwrap_err(), "Bundled Zellij 0.45.0 is unavailable");
    let missing_host = ZellijTerminalConfig::from_resources("/res", "/home/w", false, probe((true, false), (false, false)));
    assert_eq!(missing_host.unwrap_err(), "Bundled Wardian terminal host is unavailable");
    let config = ZellijTerminalConfig::from_resources("/res", "/home/w", false, probe((true, false), (false, true)))
        .expect("both binaries present");
    assert_eq!(config.executable, "/res/bin/zellij");
    assert_eq!(config.wardian_cli, "/res/resources/bin/wardian-cli");
    assert_eq!(config.runtime_root, "/home/w/runtime/zellij");
    assert_eq!(config.wardian_home, "/home/w");
    assert_eq!(config.session_name, session_name_for_identity(b"/home/w"));
}

#[test]
fn an_empty_home_keeps_the_runtime_root_relative() {
    let config = ZellijTerminalConfig::from_resources("/res", "", false, probe((true, false), (true, false)))
        .expect("both binaries present");
    assert_eq!(config.runtime_root, "runtime/zellij");
    assert_eq!(config.wardian_home, "");
}

#[test]
fn windows_bundles_carry_exe_names_and_a_folded_home_identity() {
    let config = ZellijTerminalConfig::from_resources("C:\\App\\", "C:\\Wardian", true, probe((false, true), (true, true)))
        .expect("both binaries present");
    assert_eq!(config.executable, "C:\\App\\resources\\bin\\zellij.exe");
    assert_eq!(config.wardian_cli, "C:\\App\\bin\\wardian-cli.exe");
    assert_eq!(config.runtime_root, "C:\\Wardian\\runtime\\zellij");
    assert_eq!(config.session_name, session_name_for_identity(b"c:/wardian"));
}

#[test]
fn wardian_home_namespaces_zellij_sessions_deterministically() {
    let name = |home: &str| session_name_for_identity(&windows_home_identity(home));
    let first = name("C:\\Wardian\\one");
    assert_eq!(first, name("c:/wardian/one"));
    assert_ne!(first, name("C:\\Wardian\\two"));
    assert!(first.starts_with("wardian-"));
    assert_eq!(first.len(), "wardian-".len() + 12);
    assert_eq!(windows_home_identity("C:\\Wardian\\One"), b"c:/wardian/one".to_vec());
}
