use wardian_state::roster::{order_roster, RemoteAgentSummary};

fn agent(session_id: &str, session_name: &str, agent_class: &str, status: &str) -> RemoteAgentSummary {
    RemoteAgentSummary {
        session_id: session_id.to_string(),
        session_name: session_name.to_string(),
        agent_class: agent_class.to_string(),
        provider: "mock".to_string(),
        workspace: "<absolute-workspace-path>".to_string(),
        status: status.to_string(),
        latest_text: None,
    }
}

fn ids(roster: &[RemoteAgentSummary]) -> Vec<&str> {
    roster.iter().map(|agent| agent.session_id.as_str()).collect()
}

#[test]
fn remote_agent_roster_preserves_desktop_agent_order() {
    let agents = vec![agent("agent-1", "Alpha", "Coder", "Idle"), agent("agent-2", "Beta", "Tester", "Processing")];
    let roster = order_roster(&agents, &["agent-2".to_string(), "agent-1".to_string()]);
    assert_eq!(ids(&roster), vec!["agent-2", "agent-1"]);
}

#[test]
fn remote_agent_roster_maps_agent_summary_fields() {
    let roster = order_roster(&vec![agent("agent-1", "CoderOne", "Coder", "Idle")], &[]);
    assert_eq!(roster.len(), 1);
    assert_eq!(roster[0].session_id, "agent-1");
    assert_eq!(roster[0].session_name, "CoderOne");
    assert_eq!(roster[0].agent_class, "Coder");
    assert_eq!(roster[0].provider, "mock");
    assert_eq!(roster[0].workspace, "<absolute-workspace-path>");
    assert_eq!(roster[0].status, "Idle");
    assert_eq!(roster[0].latest_text, None);
}

#[test]
fn agents_outside_the_desktop_order_follow_by_name_then_id() {
    let agents = vec![
        agent("d", "Zed", "Coder", "Idle"),
        agent("c", "Beta", "Coder", "Idle"),
        agent("b", "Beta", "Coder", "Idle"),
        agent("a", "Alpha", "Coder", "Idle"),
        agent("e", "Omega", "Coder", "Idle"),
    ];
    let order = ["e".to_string(), "missing".to_string(), "e".to_string()];
    let roster = order_roster(&agents, &order);
    assert_eq!(ids(&roster), vec!["e", "a", "b", "c", "d"]);
}
