use wardian_state::session_close::{
    claim_decision, session_close_idempotency_key, session_close_input, session_close_provider, session_close_run_id,
    session_close_workspace, InputValue, RunClaim, SessionCloseContext,
};

#[test]
fn archive_less_boundaries_receive_distinct_idempotency_keys() {
    let first = session_close_idempotency_key("invoker", "boundary-a");
    let retry = session_close_idempotency_key("invoker", "boundary-a");
    let second = session_close_idempotency_key("invoker", "boundary-b");
    assert_eq!(first, retry);
    assert_ne!(first, second);
}

#[test]
fn one_boundary_and_invoker_have_one_deterministic_run_id() {
    assert_eq!(session_close_run_id("invoker", "boundary-a"), session_close_run_id("invoker", "boundary-a"));
    assert_ne!(session_close_run_id("invoker", "boundary-a"), session_close_run_id("invoker", "boundary-b"));
}

#[test]
fn keys_and_run_ids_have_their_documented_shape() {
    assert_eq!(session_close_idempotency_key("inv", "b1"), "session-close:inv:b1");
    let run_id = session_close_run_id("inv", "b1");
    assert!(run_id.starts_with("session-close-"));
    assert_eq!(run_id.len(), "session-close-".len() + 64);
}

#[test]
fn a_claim_repairs_only_its_own_partial_run() {
    assert_eq!(claim_decision(true, true, true), RunClaim::AlreadyAccepted);
    assert_eq!(claim_decision(false, false, false), RunClaim::Create);
    assert_eq!(claim_decision(false, true, true), RunClaim::Repair);
    assert_eq!(claim_decision(false, true, false), RunClaim::RefuseUnexpected);
}

fn boundary(conversation: Option<&str>, sequence: Option<u64>) -> SessionCloseContext {
    SessionCloseContext {
        boundary_id: "b-1".to_string(),
        agent_id: "agent-1".to_string(),
        agent_name: "Agent One".to_string(),
        workspace: "/work".to_string(),
        provider: "provider-b".to_string(),
        boundary_reason: "clear".to_string(),
        archive_available: true,
        conversation_id: conversation.map(|c| c.to_string()),
        source_sequence: sequence,
    }
}

#[test]
fn the_input_carries_the_boundary_and_the_invokers_key() {
    let input = session_close_input(&boundary(Some("conv-9"), Some(42)), "inv");
    let expected = vec![
        ("agent_id".to_string(), InputValue::Text("agent-1".to_string())),
        ("agent_name".to_string(), InputValue::Text("Agent One".to_string())),
        ("workspace".to_string(), InputValue::Text("/work".to_string())),
        ("source_provider".to_string(), InputValue::Text("provider-b".to_string())),
        ("boundary_reason".to_string(), InputValue::Text("clear".to_string())),
        ("boundary_id".to_string(), InputValue::Text("b-1".to_string())),
        ("archive_available".to_string(), InputValue::Flag(true)),
        ("conversation_id".to_string(), InputValue::Text("conv-9".to_string())),
        ("source_sequence".to_string(), InputValue::Count(42)),
        ("idempotency_key".to_string(), InputValue::Text("session-close:inv:b-1".to_string())),
    ];
    assert_eq!(input, expected);
}

#[test]
fn a_missing_conversation_and_sequence_become_empty_and_zero() {
    let input = session_close_input(&boundary(None, None), "inv");
    assert_eq!(input[7], ("conversation_id".to_string(), InputValue::Text(String::new())));
    assert_eq!(input[8], ("source_sequence".to_string(), InputValue::Count(0)));
}

#[test]
fn provider_and_workspace_fall_back_in_order() {
    assert_eq!(session_close_provider(Some("provider-a".to_string()), Some("provider-b".to_string())), "provider-a");
    assert_eq!(session_close_provider(None, Some("provider-b".to_string())), "provider-b");
    assert_eq!(session_close_provider(None, None), "codex");
    let context = boundary(None, None);
    assert_eq!(session_close_workspace(Some("/other".to_string()), &context), "/other");
    assert_eq!(session_close_workspace(None, &context), "/work");
}
