use wardian_state::zellij::{
    prepare_pane_launch, BundleProbe, ZellijEnginePhase, ZellijLaunchSpec, ZellijPaneId, ZellijPaneInfo, ZellijTerminalConfig,
};
use wardian_state::zellij_engine::{
    command_failure, created_pane_from_listing, dump_pane_action, new_pane_action, session_command_args, subscribe_args,
    start_step, StartAction, StartEvent, StartStage, StartStep, ZellijEngineState,
};

fn pane(id: u32, title: &str, is_plugin: bool) -> ZellijPaneInfo {
    ZellijPaneInfo {
        id,
        is_plugin,
        is_fullscreen: false,
        title: title.to_string(),
        exited: false,
        exit_status: None,
        pane_command: None,
        pane_cwd: None,
        pane_rows: 40,
        pane_columns: 120,
    }
}

#[test]
fn a_live_client_is_reused_and_a_dead_one_replaced() {
    let mut engine = ZellijEngineState::new();
    assert_eq!(engine.phase, ZellijEnginePhase::Stopped);
    assert_eq!(engine.begin_start(false), StartStep::Launch);
    assert_eq!(engine.phase, ZellijEnginePhase::Starting);
    engine.attached_client(1);
    assert_eq!(engine.phase, ZellijEnginePhase::Running);
    assert_eq!(engine.begin_start(true), StartStep::Reuse(1));
    assert_eq!(engine.phase, ZellijEnginePhase::Running);
    assert_eq!(engine.begin_start(false), StartStep::Launch);
    assert_eq!(engine.attached, None);
    engine.start_failed();
    assert_eq!(engine.phase, ZellijEnginePhase::Failed);
}

#[test]
fn only_the_attached_generation_reports_an_exit() {
    let mut engine = ZellijEngineState::new();
    engine.attached_client(3);
    engine.client_exited(2);
    assert_eq!(engine.attached, Some(3));
    engine.client_exited(3);
    assert_eq!(engine.attached, None);
    assert_eq!(engine.phase, ZellijEnginePhase::Reattaching);
    assert_eq!(engine.begin_start(true), StartStep::Launch);
}

#[test]
fn commands_address_the_session_and_the_pane() {
    assert_eq!(
        session_command_args("wardian-abc", vec!["action".to_string(), "list-panes".to_string()]),
        vec!["--session", "wardian-abc", "action", "list-panes"]
    );
    assert_eq!(
        new_pane_action(
            "agent-1",
            vec!["/bin/wardian-cli", "terminal-host", "--manifest", "/rt/launches/n.json", "--nonce", "n"]
                .into_iter()
                .map(str::to_string)
                .collect()
        ),
        vec![
            "action", "new-pane", "--name", "wardian:agent-1", "--no-focus", "--", "/bin/wardian-cli", "terminal-host",
            "--manifest", "/rt/launches/n.json", "--nonce", "n",
        ]
    );
    let pane = ZellijPaneId::parse("terminal_7").unwrap();
    assert_eq!(dump_pane_action(&pane, true), vec!["action", "dump-screen", "--full", "--pane-id", "terminal_7", "--ansi"]);
    assert_eq!(dump_pane_action(&pane, false), vec!["action", "dump-screen", "--full", "--pane-id", "terminal_7"]);
    assert_eq!(
        subscribe_args("s", &pane),
        vec!["--session", "s", "subscribe", "--pane-id", "terminal_7", "--scrollback", "1000", "--format", "json", "--ansi"]
    );
}

#[test]
fn a_failed_command_reports_its_redacted_error() {
    let message = command_failure(&["".to_string()]);
    assert!(message.starts_with("Zellij command failed: "));
    assert_eq!(message, "Zellij command failed: terminal engine unavailable");
}

#[test]
fn the_created_pane_is_the_new_one_titled_for_the_session() {
    let panes = vec![
        pane(1, "wardian:agent-1", false),
        pane(2, "wardian:agent-2", false),
        pane(3, "wardian:agent-1", true),
        pane(4, "wardian:agent-1", false),
    ];
    let known = vec![ZellijPaneId::parse("terminal_1").unwrap()];
    assert_eq!(created_pane_from_listing(&panes, "agent-1", &known).unwrap().as_str(), "terminal_4");
    assert_eq!(created_pane_from_listing(&panes, "agent-9", &known), None);
}

fn config() -> ZellijTerminalConfig {
    let probe = BundleProbe { zellij_direct: true, zellij_nested: false, cli_direct: true, cli_nested: false };
    ZellijTerminalConfig::from_resources("/res", "/home/w", false, probe).unwrap()
}

#[test]
fn a_pane_launch_keeps_the_environment_in_its_manifest() {
    let config = config();
    let launch = ZellijLaunchSpec {
        session_id: "agent-1".to_string(),
        executable: "provider".to_string(),
        args: vec!["--flag".to_string()],
        cwd: "/work".to_string(),
        env: vec![("SECRET_TOKEN".to_string(), "never-on-cli".to_string())],
    };
    let prepared = prepare_pane_launch(&config, &launch, "abc123", false);
    assert_eq!(config.launches_dir(false), "/home/w/runtime/zellij/launches");
    assert_eq!(prepared.manifest_path, "/home/w/runtime/zellij/launches/abc123.json");
    assert_eq!(prepared.manifest.nonce, "abc123");
    assert_eq!(prepared.manifest.session_id, "agent-1");
    assert_eq!(prepared.manifest.executable, "provider");
    assert_eq!(prepared.manifest.args, vec!["--flag".to_string()]);
    assert_eq!(prepared.manifest.cwd, "/work");
    assert_eq!(prepared.manifest.env, vec![("SECRET_TOKEN".to_string(), "never-on-cli".to_string())]);
    let action = new_pane_action(&launch.session_id, prepared.pane_command);
    let command = action.join(" ");
    assert!(command.contains("terminal-host --manifest"));
    assert!(!command.contains("SECRET_TOKEN"));
    assert!(!command.contains("never-on-cli"));
    assert!(!command.contains("--flag"));
    assert_eq!(
        action,
        vec![
            "action", "new-pane", "--name", "wardian:agent-1", "--no-focus", "--", "/res/bin/wardian-cli", "terminal-host",
            "--manifest", "/home/w/runtime/zellij/launches/abc123.json", "--nonce", "abc123",
        ]
    );
}

#[test]
fn a_start_bootstraps_an_unlisted_session_and_waits_for_it() {
    let mut engine = ZellijEngineState::new();
    assert_eq!(engine.begin_start(false), StartStep::Launch);
    let (stage, action) = start_step(StartStage::PreparingDirectories, &mut engine, StartEvent::DirectoriesPrepared(Ok(())));
    assert_eq!((stage, action), (StartStage::ProbingSession, StartAction::ListPanes));
    let (stage, action) = start_step(stage, &mut engine, StartEvent::SessionListed(false));
    assert_eq!((stage, action), (StartStage::Bootstrapping, StartAction::Bootstrap));
    let (stage, action) = start_step(stage, &mut engine, StartEvent::BootstrapExited(true));
    assert_eq!((stage, action), (StartStage::AwaitingReady, StartAction::ProbeReady));
    let (stage, action) = start_step(stage, &mut engine, StartEvent::ReadyProbed { listed: false, deadline_passed: false });
    assert_eq!((stage, action), (StartStage::AwaitingReady, StartAction::ProbeReady));
    let (stage, action) = start_step(stage, &mut engine, StartEvent::ReadyProbed { listed: true, deadline_passed: false });
    assert_eq!((stage, action), (StartStage::ClosingUnregistered, StartAction::CloseUnregistered));
    let (stage, action) = start_step(stage, &mut engine, StartEvent::UnregisteredClosed(Ok(())));
    assert_eq!((stage, action), (StartStage::SpawningClient, StartAction::SpawnClient));
    assert_eq!(engine.phase, ZellijEnginePhase::Starting);
    let (stage, action) = start_step(stage, &mut engine, StartEvent::ClientAttached(1));
    assert_eq!((stage, action), (StartStage::Finished, StartAction::Finish(Ok(1))));
    assert_eq!(engine.phase, ZellijEnginePhase::Running);
    assert_eq!(engine.attached, Some(1));
    let (stage, action) = start_step(stage, &mut engine, StartEvent::SessionListed(true));
    assert_eq!((stage, action), (StartStage::Finished, StartAction::Ignore));
}

#[test]
fn a_listed_session_goes_straight_to_reconciliation() {
    let mut engine = ZellijEngineState::new();
    engine.begin_start(false);
    let (stage, action) = start_step(StartStage::ProbingSession, &mut engine, StartEvent::SessionListed(true));
    assert_eq!((stage, action), (StartStage::ClosingUnregistered, StartAction::CloseUnregistered));
    let (stage, action) = start_step(stage, &mut engine, StartEvent::BootstrapExited(true));
    assert_eq!((stage, action), (StartStage::ClosingUnregistered, StartAction::Ignore));
}

#[test]
fn each_failed_start_step_answers_its_error() {
    let failing = |stage: StartStage, event: StartEvent| {
        let mut engine = ZellijEngineState::new();
        engine.begin_start(false);
        let (next, action) = start_step(stage, &mut engine, event);
        assert_eq!(next, StartStage::Finished);
        (engine.phase, action)
    };
    assert_eq!(
        failing(StartStage::PreparingDirectories, StartEvent::DirectoriesPrepared(Err("disk full".to_string()))),
        (ZellijEnginePhase::Failed, StartAction::Finish(Err("disk full".to_string())))
    );
    assert_eq!(
        failing(StartStage::Bootstrapping, StartEvent::BootstrapExited(false)),
        (ZellijEnginePhase::Failed, StartAction::Finish(Err("Zellij background session could not start".to_string())))
    );
    assert_eq!(
        failing(StartStage::Bootstrapping, StartEvent::BootstrapUnrunnable("Zellij bootstrap task failed: gone".to_string())),
        (ZellijEnginePhase::Starting, StartAction::Finish(Err("Zellij bootstrap task failed: gone".to_string())))
    );
    assert_eq!(
        failing(StartStage::AwaitingReady, StartEvent::ReadyProbed { listed: false, deadline_passed: true }),
        (ZellijEnginePhase::Failed, StartAction::Finish(Err("Zellij background session did not become ready".to_string())))
    );
    assert_eq!(
        failing(StartStage::ClosingUnregistered, StartEvent::UnregisteredClosed(Err("close failed".to_string()))),
        (ZellijEnginePhase::Failed, StartAction::Finish(Err("close failed".to_string())))
    );
    assert_eq!(
        failing(StartStage::SpawningClient, StartEvent::ClientFailed("no pty".to_string())),
        (ZellijEnginePhase::Failed, StartAction::Finish(Err("no pty".to_string())))
    );
    assert_eq!(
        failing(StartStage::SpawningClient, StartEvent::ClientReaderUnavailable("no reader".to_string())),
        (ZellijEnginePhase::Starting, StartAction::Finish(Err("no reader".to_string())))
    );
}
