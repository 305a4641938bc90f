use wardian_state::zellij::{ZellijPaneId, ZellijPaneInfo, ZellijPanePhase};
use wardian_state::zellij_panes::{
    activation_plan, is_update_for, session_panes, transport_pane, unregistered_managed_panes, write_action_args, ZellijPaneBinding,
    ZellijPaneRegistry,
};

fn pane(id: u32, title: &str, fullscreen: bool) -> ZellijPaneInfo {
    ZellijPaneInfo {
        id,
        is_plugin: false,
        is_fullscreen: fullscreen,
        title: title.to_string(),
        exited: false,
        exit_status: None,
        pane_command: None,
        pane_cwd: None,
        pane_rows: 40,
        pane_columns: 120,
    }
}

#[test]
fn stale_generation_cannot_reach_the_replacement_pane() {
    let mut registry = ZellijPaneRegistry::new();
    let generation = registry.begin_start("agent-1").unwrap();
    let binding = registry.complete_start("agent-1", generation, ZellijPaneId::terminal(3)).unwrap();
    assert_eq!(binding.phase, ZellijPanePhase::Running);
    assert_eq!(
        registry.live_pane("agent-1", generation + 1).unwrap_err(),
        "Agent Zellij pane generation is stale"
    );
    assert_eq!(registry.live_pane("agent-1", generation).unwrap().as_str(), "terminal_3");
    assert_eq!(registry.live_pane("agent-2", generation).unwrap_err(), "Agent has no Zellij pane");
}

#[test]
fn a_released_binding_lets_the_session_restart_with_a_newer_generation() {
    let mut registry = ZellijPaneRegistry::new();
    let first = registry.begin_start("agent-1").unwrap();
    registry.complete_start("agent-1", first, ZellijPaneId::terminal(3)).unwrap();
    assert_eq!(
        registry.begin_start("agent-1").unwrap_err(),
        "Agent already has a Zellij pane transition in progress"
    );
    let released = registry.release("agent-1", first).unwrap();
    assert_eq!(released.pane_id.unwrap().as_str(), "terminal_3");
    assert!(registry.binding("agent-1").is_none());
    let second = registry.begin_start("agent-1").unwrap();
    let replacement = registry.complete_start("agent-1", second, ZellijPaneId::terminal(4)).unwrap();
    assert_eq!(replacement.pane_id.unwrap().as_str(), "terminal_4");
    assert!(second > first);
    assert!(registry.release("agent-1", first).is_none());
}

#[test]
fn a_rolled_back_start_cannot_complete() {
    let mut registry = ZellijPaneRegistry::new();
    let generation = registry.begin_start("agent-1").unwrap();
    registry.release("agent-1", generation);
    assert_eq!(
        registry.complete_start("agent-1", generation, ZellijPaneId::terminal(1)).unwrap_err(),
        "Zellij pane start lost its agent binding"
    );
}

#[test]
fn closing_marks_the_binding_and_refuses_a_second_close() {
    let mut registry = ZellijPaneRegistry::new();
    let generation = registry.begin_start("agent-1").unwrap();
    registry.complete_start("agent-1", generation, ZellijPaneId::terminal(9)).unwrap();
    registry.mark_exited("agent-1", generation);
    assert_eq!(registry.binding("agent-1").unwrap().phase, ZellijPanePhase::Exited);
    assert_eq!(registry.begin_close("agent-1", generation).unwrap().as_str(), "terminal_9");
    assert_eq!(registry.binding("agent-1").unwrap().phase, ZellijPanePhase::Closing);
    assert_eq!(
        registry.begin_close("agent-1", generation).unwrap_err(),
        "Agent Zellij pane generation is stale"
    );
}

#[test]
fn startup_reconciliation_finds_only_unregistered_managed_panes() {
    let mut registry = ZellijPaneRegistry::new();
    let generation = registry.begin_start("agent-1").unwrap();
    registry.complete_start("agent-1", generation, ZellijPaneId::terminal(1)).unwrap();
    let panes = vec![pane(1, "wardian:agent-1", false), pane(2, "wardian:old", false), pane(3, "editor", false)];
    let stale = unregistered_managed_panes(&registry, &panes);
    assert_eq!(stale.len(), 1);
    assert_eq!(stale[0].as_str(), "terminal_2");
    let mine = session_panes(&panes, "old");
    assert_eq!(mine.len(), 1);
    assert_eq!(mine[0].as_str(), "terminal_2");
}

#[test]
fn activation_leaves_another_fullscreen_pane_first() {
    let target = ZellijPaneId::terminal(2);
    let panes = vec![pane(1, "a", true), pane(2, "b", false)];
    let (other, toggle_target) = activation_plan(&target, &panes);
    assert_eq!(other.unwrap().as_str(), "terminal_1");
    assert!(toggle_target);
    let panes = vec![pane(1, "a", false), pane(2, "b", true)];
    let (other, toggle_target) = activation_plan(&target, &panes);
    assert!(other.is_none());
    assert!(!toggle_target);
}

#[test]
fn writes_spell_each_byte_in_decimal() {
    let args = write_action_args(&ZellijPaneId::terminal(5), b"A\r");
    assert_eq!(args, vec!["action", "write", "--pane-id", "terminal_5", "65", "13"]);
}

fn binding(phase: ZellijPanePhase, pane: Option<&str>) -> ZellijPaneBinding {
    ZellijPaneBinding {
        session_id: "agent-1".to_string(),
        pane_id: pane.map(|p| ZellijPaneId::parse(p).expect("pane id")),
        generation: 3,
        phase,
    }
}

#[test]
fn only_a_running_pane_with_an_identity_gets_a_transport() {
    assert_eq!(transport_pane(&binding(ZellijPanePhase::Starting, Some("terminal_4"))).unwrap_err(), "Agent Zellij pane is not running");
    assert_eq!(transport_pane(&binding(ZellijPanePhase::Exited, Some("terminal_4"))).unwrap_err(), "Agent Zellij pane is not running");
    assert_eq!(transport_pane(&binding(ZellijPanePhase::Running, None)).unwrap_err(), "Agent Zellij pane is not ready");
    assert_eq!(transport_pane(&binding(ZellijPanePhase::Running, Some("terminal_4"))).unwrap().as_str(), "terminal_4");
}

#[test]
fn a_subscription_renders_only_updates_of_its_own_pane() {
    let pane = ZellijPaneId::parse("terminal_4").unwrap();
    assert!(is_update_for("pane_update", "terminal_4", &pane));
    assert!(!is_update_for("pane_update", "terminal_5", &pane));
    assert!(!is_update_for("pane_closed", "terminal_4", &pane));
}
