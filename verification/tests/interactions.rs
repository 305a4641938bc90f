use wardian_state::interactions::{
    interaction_id, is_notification_expired, keep_existing_provider_input_state, message_status_for_delivery_state,
    resolution_record, ExpiryCheck, InboxNotificationKind, InboxNotificationPayload, InteractionBodyRef,
    InteractionKind, InteractionState, InteractionStatus, InteractionTriggerPolicy, ProviderInputReadiness,
    ProviderReadyEvidence, ReplyStatus, Resolution,
};

const NOW: &str = "2026-03-01T10:00:00.000Z";
const LATER: &str = "2026-03-01T10:05:00.000Z";

fn body(text: &str) -> InteractionBodyRef {
    InteractionBodyRef::Inline { body: text.to_string() }
}

fn task(state: &mut InteractionState, id: &str, sender: Option<&str>, target: &str) -> wardian_state::interactions::InteractionRecord {
    let (record, stored) =
        state.create_task_with_id(id.to_string(), sender.map(str::to_string), target.to_string(), body("review"), NOW.to_string());
    assert!(stored);
    record
}

fn approval(expires_at: Option<&str>) -> InboxNotificationPayload {
    InboxNotificationPayload {
        kind: InboxNotificationKind::Approval,
        title: "Approve deployment".to_string(),
        body: "Deploy the reviewed change.".to_string(),
        proposed_action: Some("Deploy".to_string()),
        risk: Some("Changes production".to_string()),
        choices: vec!["Approve".to_string(), "Reject".to_string()],
        expires_at: expires_at.map(str::to_string),
    }
}

fn open_approval(state: &mut InteractionState, id: &str, expires_at: Option<&str>) -> Vec<wardian_state::interactions::InteractionRecord> {
    let records = state
        .create_notification_durable(id.to_string(), "agent-1".to_string(), approval(expires_at), "{}".to_string(), NOW.to_string())
        .expect("approval");
    for record in records.iter() {
        state.commit_record(record.clone());
    }
    records
}

#[test]
fn task_interaction_starts_awaiting_reply() {
    let mut state = InteractionState::new();
    let (record, stored) = state.create_task(Some("source-1".to_string()), "agent-1".to_string(), body("review this"));
    assert!(stored);
    assert!(record.id.starts_with("int_"));
    assert_eq!(record.kind, InteractionKind::Task);
    assert_eq!(record.status, InteractionStatus::AwaitingReply);
    assert_eq!(record.trigger_policy, InteractionTriggerPolicy::ReplyRequired);
    assert_eq!(state.interaction(&record.id).expect("stored").status, InteractionStatus::AwaitingReply);
}

#[test]
fn interaction_ids_carry_the_clock_and_counter_at_fixed_widths() {
    assert_eq!(interaction_id(1_700_000_000_123, 7), "int_1700000000123_000007");
    assert_eq!(interaction_id(42, 1_234_567), "int_0000000000042_1234567");
    assert_eq!(interaction_id(-5, 0), "int_-000000000005_000000");
    let mut state = InteractionState::new();
    let first = state.new_interaction_id();
    let second = state.new_interaction_id();
    assert!(first.ends_with("_000000") && second.ends_with("_000001"));
    assert!(state.new_delivery_attempt_id().starts_with("attempt_"));
}

#[test]
fn create_message_records_start_turn_interaction() {
    let mut state = InteractionState::new();
    let record = state.create_message(
        "m-1".to_string(),
        Some("source-agent".to_string()),
        vec!["target-agent".to_string()],
        body("hello"),
        NOW.to_string(),
    );
    assert_eq!(record.kind, InteractionKind::Message);
    assert_eq!(record.status, InteractionStatus::Queued);
    assert_eq!(record.trigger_policy, InteractionTriggerPolicy::StartTurn);
    assert_eq!(record.sender_session_id.as_deref(), Some("source-agent"));
    assert_eq!(record.target_session_ids, vec!["target-agent".to_string()]);
}

#[test]
fn durable_delivery_attempts_advance_message_transport_status() {
    let mut state = InteractionState::new();
    let message = state
        .create_message_durable("m-2".to_string(), None, vec!["target-agent".to_string()], body("hello"), NOW.to_string())
        .expect("message");
    state.commit_record(message.clone());

    let delivering = state.message_update_for_delivery("m-2", "submit_started", NOW.to_string()).unwrap().expect("changes");
    assert_eq!(delivering.status, InteractionStatus::Delivering);
    state.commit_record(delivering);
    assert_eq!(state.message_update_for_delivery("m-2", "submit_sent_unconfirmed", NOW.to_string()), Ok(None));
    assert!(state.interaction("m-2").unwrap().completed_at.is_none());

    let delivered = state.message_update_for_delivery("m-2", "provider_accepted", LATER.to_string()).unwrap().expect("changes");
    assert_eq!(delivered.status, InteractionStatus::Delivered);
    assert_eq!(delivered.completed_at.as_deref(), Some(LATER));
    assert_eq!(state.message_update_for_delivery("m-2", "payload_sent", LATER.to_string()), Ok(None));
    assert_eq!(state.message_update_for_delivery("missing", "failed", LATER.to_string()), Ok(None));
}

#[test]
fn delivery_states_map_to_transport_statuses() {
    assert_eq!(message_status_for_delivery_state("queued"), Some(InteractionStatus::Queued));
    assert_eq!(message_status_for_delivery_state("submit_sent_unconfirmed"), Some(InteractionStatus::Delivering));
    assert_eq!(message_status_for_delivery_state("approval_submitted"), Some(InteractionStatus::Delivered));
    assert_eq!(message_status_for_delivery_state("failed"), Some(InteractionStatus::Failed));
    assert_eq!(message_status_for_delivery_state("retrying"), None);
}

#[test]
fn message_status_updates_name_what_is_wrong() {
    let mut state = InteractionState::new();
    task(&mut state, "t-1", None, "agent-1");
    assert_eq!(
        state.update_message_status_durable("t-1", InteractionStatus::Delivered, NOW.to_string()).unwrap_err(),
        "interaction is not a message: t-1"
    );
    assert_eq!(
        state.update_message_status_durable("nope", InteractionStatus::Delivered, NOW.to_string()).unwrap_err(),
        "message interaction not found: nope"
    );
}

#[test]
fn expired_approval_does_not_block_a_new_approval_from_the_same_agent() {
    let mut state = InteractionState::new();
    open_approval(&mut state, "n-old", Some("2026-03-01T09:59:00Z"));
    let records = open_approval(&mut state, "n-new", Some("2026-03-01T10:10:00Z"));
    assert_eq!(records.len(), 2);
    assert_eq!(records[0].id, "n-old");
    assert_eq!(state.interaction("n-old").unwrap().status, InteractionStatus::Expired);
    assert_eq!(records[1].status, InteractionStatus::AwaitingReply);
}

#[test]
fn an_open_approval_blocks_another_from_the_same_agent() {
    let mut state = InteractionState::new();
    open_approval(&mut state, "n-1", None);
    assert_eq!(
        state
            .create_notification_durable("n-2".to_string(), "agent-1".to_string(), approval(None), "{}".to_string(), NOW.to_string())
            .unwrap_err(),
        "approval_already_open"
    );
    let update = InboxNotificationPayload { kind: InboxNotificationKind::Update, ..approval(None) };
    let records = state
        .create_notification_durable("n-3".to_string(), "agent-1".to_string(), update, "{}".to_string(), NOW.to_string())
        .expect("updates are never blocked");
    assert_eq!(records.len(), 1);
    assert_eq!(records[0].status, InteractionStatus::Completed);
    assert_eq!(records[0].trigger_policy, InteractionTriggerPolicy::NotifyOnly);
}

#[test]
fn notification_expiry_reads_both_times() {
    assert!(!is_notification_expired(&approval(None), NOW));
    assert!(is_notification_expired(&approval(Some("2026-03-01T10:00:00Z")), NOW));
    assert!(!is_notification_expired(&approval(Some("2026-03-01T10:00:00.001Z")), NOW));
    assert!(is_notification_expired(&approval(Some("not a time")), NOW));
    assert!(!is_notification_expired(&approval(Some("2026-03-01T10:00:00Z")), "garbage"));
}

#[test]
fn resolving_an_approval_checks_its_state_and_choice() {
    let mut state = InteractionState::new();
    open_approval(&mut state, "n-1", Some("2026-03-01T10:10:00Z"));
    match state.resolve_notification("n-1", "Maybe", NOW) {
        Resolution::Refused(reason) => assert_eq!(reason, "invalid_choice"),
        other => panic!("unexpected {other:?}"),
    }
    match state.resolve_notification("n-1", "Approve", NOW) {
        Resolution::Resolve { updated, decision } => {
            assert_eq!(updated.status, InteractionStatus::Completed);
            assert_eq!(decision.choice, "Approve");
            assert_eq!(decision.resolved_at, NOW);
            let reply = resolution_record(&updated, "r-1".to_string(), "{\"choice\":\"Approve\"}".to_string(), &NOW.to_string());
            assert_eq!(reply.parent_interaction_id.as_deref(), Some("n-1"));
            assert_eq!(reply.target_session_ids, vec!["agent-1".to_string()]);
            state.commit_record(updated);
            state.commit_record(reply);
        }
        other => panic!("unexpected {other:?}"),
    }
    match state.resolve_notification("n-1", "Approve", NOW) {
        Resolution::Refused(reason) => assert_eq!(reason, "already_resolved"),
        other => panic!("unexpected {other:?}"),
    }
    assert_eq!(state.notification_reply("n-1").expect("reply").id, "r-1");
    match state.resolve_notification("missing", "Approve", NOW) {
        Resolution::Refused(reason) => assert_eq!(reason, "not_found"),
        other => panic!("unexpected {other:?}"),
    }
}

#[test]
fn an_approval_past_its_expiry_expires_instead_of_resolving() {
    let mut state = InteractionState::new();
    open_approval(&mut state, "n-1", Some("2026-03-01T10:01:00Z"));
    match state.expire_notification_if_needed("n-1", NOW) {
        ExpiryCheck::Current(record) => assert_eq!(record.status, InteractionStatus::AwaitingReply),
        other => panic!("unexpected {other:?}"),
    }
    match state.resolve_notification("n-1", "Approve", LATER) {
        Resolution::ExpireThenRefuse(expired) => {
            assert_eq!(expired.status, InteractionStatus::Expired);
            assert_eq!(expired.completed_at.as_deref(), Some(LATER));
            state.commit_record(expired);
        }
        other => panic!("unexpected {other:?}"),
    }
    match state.resolve_notification("n-1", "Approve", LATER) {
        Resolution::Refused(reason) => assert_eq!(reason, "expired"),
        other => panic!("unexpected {other:?}"),
    }
}

#[test]
fn reply_completes_parent_task_once() {
    let mut state = InteractionState::new();
    task(&mut state, "t-1", None, "agent-1");
    let answer = state
        .complete_task_with_reply("t-1", Some("agent-1"), ReplyStatus::Done, "finished", "r-1".to_string(), NOW.to_string())
        .expect("reply");
    assert_eq!(answer.reply.request_id, "t-1");
    assert_eq!(state.interaction("t-1").unwrap().status, InteractionStatus::Completed);
    assert_eq!(answer.reply_record.parent_interaction_id.as_deref(), Some("t-1"));
    let duplicate = state
        .complete_task_with_reply("t-1", Some("agent-1"), ReplyStatus::Done, "again", "r-2".to_string(), NOW.to_string())
        .unwrap_err();
    assert_eq!(duplicate, "duplicate_reply");
}

#[test]
fn completed_task_exposes_structured_reply_status() {
    let mut state = InteractionState::new();
    task(&mut state, "t-1", Some("planner"), "agent-1");
    state
        .complete_task_with_reply("t-1", Some(" agent-1 "), ReplyStatus::Blocked, "blocked", "r-1".to_string(), NOW.to_string())
        .expect("reply");
    let reply = state.structured_reply("t-1").expect("kept");
    assert_eq!(reply.request_id, "t-1");
    assert_eq!(reply.status, ReplyStatus::Blocked);
    assert_eq!(reply.body, "blocked");
    assert_eq!(reply.target_session_id, "agent-1");
    assert_eq!(reply.source_session_id.as_deref(), Some("agent-1"));
    assert_eq!(state.interaction("r-1").unwrap().target_session_ids, vec!["planner".to_string()]);
}

#[test]
fn reply_requires_target_source_session() {
    let mut state = InteractionState::new();
    task(&mut state, "t-1", None, "agent-1");
    let reply = |state: &mut InteractionState, source: Option<&str>| {
        state.complete_task_with_reply("t-1", source, ReplyStatus::Done, "spoofed", "r".to_string(), NOW.to_string()).unwrap_err()
    };
    assert_eq!(reply(&mut state, None), "unauthorized");
    assert_eq!(reply(&mut state, Some("   ")), "unauthorized");
    assert_eq!(reply(&mut state, Some("agent-2")), "unauthorized");
    assert_eq!(state.interaction("t-1").unwrap().status, InteractionStatus::AwaitingReply);
    assert_eq!(
        state
            .complete_task_with_reply("nope", Some("agent-1"), ReplyStatus::Done, "x", "r".to_string(), NOW.to_string())
            .unwrap_err(),
        "not_found"
    );
}

#[test]
fn failed_task_records_terminal_reply_and_rejects_late_reply() {
    let mut state = InteractionState::new();
    task(&mut state, "t-1", None, "agent-1");
    let failed = state.fail_task_with_reply("t-1", "agent-1", "timed out", "r-1".to_string(), NOW.to_string()).expect("fail");
    assert_eq!(failed.reply.status, ReplyStatus::Failed);
    assert_eq!(failed.reply.source_session_id, None);
    assert_eq!(state.interaction("t-1").unwrap().status, InteractionStatus::Failed);
    assert_eq!(state.structured_reply("t-1").unwrap().body, "timed out");
    let late = state
        .complete_task_with_reply("t-1", Some("agent-1"), ReplyStatus::Done, "late", "r-2".to_string(), NOW.to_string())
        .unwrap_err();
    assert_eq!(late, "duplicate_reply");
    assert_eq!(state.fail_task_with_reply("t-1", "agent-9", "x", "r-3".to_string(), NOW.to_string()).unwrap_err(), "duplicate_reply");
}

#[test]
fn deleting_agent_invalidates_cached_tasks_before_late_reply() {
    let mut state = InteractionState::new();
    task(&mut state, "t-1", Some("agent-delete"), "agent-target");
    task(&mut state, "t-2", None, "agent-delete");
    task(&mut state, "t-keep", Some("planner"), "agent-other");
    state.fail_task_with_reply("t-2", "agent-delete", "timed out", "r-2".to_string(), NOW.to_string()).expect("fail");
    assert!(state.structured_reply("t-2").is_some());

    state.delete_agent_durable_state("agent-delete");
    assert!(state.interaction("t-1").is_none());
    assert!(state.structured_reply("t-1").is_none());
    assert!(state.interaction("t-2").is_none());
    assert!(state.interaction("r-2").is_none(), "the reply to a removed task goes with it");
    assert!(state.structured_reply("t-2").is_none());
    assert!(state.interaction("t-keep").is_some());
    assert_eq!(
        state
            .complete_task_with_reply("t-1", Some("agent-target"), ReplyStatus::Done, "late", "r-9".to_string(), NOW.to_string())
            .unwrap_err(),
        "not_found"
    );
}

#[test]
fn a_deleted_session_takes_no_new_work_until_it_is_cleared() {
    let mut state = InteractionState::new();
    state.delete_agent_durable_state("agent-delete");
    assert_eq!(
        state
            .create_message_durable("m".to_string(), None, vec!["ok".to_string(), "agent-delete".to_string()], body("late"), NOW.to_string())
            .unwrap_err(),
        "agent has been deleted: agent-delete"
    );
    let (rejected, stored) =
        state.create_task_with_id("late-task".to_string(), None, "agent-delete".to_string(), body("late ask"), NOW.to_string());
    assert!(!stored);
    assert_eq!(rejected.status, InteractionStatus::Failed);
    assert_eq!(rejected.completed_at.as_deref(), Some(NOW));
    assert!(state.interaction("late-task").is_none());
    let provider = state.record_provider_input_state("agent-delete", 2, ProviderInputReadiness::Ready, Some(ProviderReadyEvidence::ProviderEvent), NOW);
    assert_eq!(provider.session_id, "agent-delete");
    assert!(state.provider_input_state("agent-delete").is_none());
    assert!(!state.may_record_delivery_attempt("agent-delete"));

    state.clear_deleted_session("agent-delete");
    assert!(state.may_record_delivery_attempt("agent-delete"));
    assert!(state
        .create_message_durable("m".to_string(), None, vec!["agent-delete".to_string()], body("hi"), NOW.to_string())
        .is_ok());
}

#[test]
fn stale_provider_readiness_generation_is_ignored() {
    let mut state = InteractionState::new();
    state.record_provider_input_state("agent-1", 4, ProviderInputReadiness::Ready, Some(ProviderReadyEvidence::PromptDetected), NOW);
    state.record_provider_input_state("agent-1", 3, ProviderInputReadiness::Ready, Some(ProviderReadyEvidence::ManualStatus), LATER);
    let current = state.provider_input_state("agent-1").unwrap();
    assert_eq!(current.generation, 4);
    assert_eq!(current.ready_evidence, Some(ProviderReadyEvidence::PromptDetected));
}

#[test]
fn prompt_readiness_does_not_override_same_generation_busy_or_action_required() {
    let mut state = InteractionState::new();
    state.record_provider_input_state("agent-1", 1, ProviderInputReadiness::Busy, None, NOW);
    state.record_provider_input_state("agent-1", 1, ProviderInputReadiness::Ready, Some(ProviderReadyEvidence::PromptDetected), NOW);
    assert_eq!(state.provider_input_state("agent-1").unwrap().state, ProviderInputReadiness::Busy);
    state.record_provider_input_state("agent-1", 1, ProviderInputReadiness::ActionRequired, None, NOW);
    state.record_provider_input_state("agent-1", 1, ProviderInputReadiness::Ready, Some(ProviderReadyEvidence::TitleDetected), NOW);
    assert_eq!(state.provider_input_state("agent-1").unwrap().state, ProviderInputReadiness::ActionRequired);
}

#[test]
fn provider_event_readiness_can_complete_same_generation_busy_state() {
    let mut state = InteractionState::new();
    state.record_provider_input_state("agent-1", 1, ProviderInputReadiness::Busy, None, NOW);
    state.record_provider_input_state("agent-1", 1, ProviderInputReadiness::Ready, Some(ProviderReadyEvidence::ProviderEvent), NOW);
    let current = state.provider_input_state("agent-1").unwrap();
    assert_eq!(current.state, ProviderInputReadiness::Ready);
    assert_eq!(current.ready_evidence, Some(ProviderReadyEvidence::ProviderEvent));
}

#[test]
fn repeated_provider_readiness_observation_reuses_existing_state() {
    let mut state = InteractionState::new();
    let initial = state.record_provider_input_state("agent-1", 1, ProviderInputReadiness::Ready, Some(ProviderReadyEvidence::ProviderEvent), NOW);
    let repeated = state.record_provider_input_state("agent-1", 1, ProviderInputReadiness::Ready, Some(ProviderReadyEvidence::ProviderEvent), LATER);
    assert!(keep_existing_provider_input_state(&initial, 1, ProviderInputReadiness::Ready, Some(ProviderReadyEvidence::ProviderEvent)));
    assert_eq!(repeated.observed_at, initial.observed_at);
}

#[test]
fn starting_new_provider_generation_invalidates_previous_ready_state() {
    let mut state = InteractionState::new();
    state.start_provider_input_generation("agent-1", ProviderInputReadiness::Ready, Some(ProviderReadyEvidence::ProviderEvent), NOW);
    state.start_provider_input_generation("agent-1", ProviderInputReadiness::Booting, None, NOW);
    state.record_provider_input_state("agent-1", 1, ProviderInputReadiness::Ready, Some(ProviderReadyEvidence::PromptDetected), LATER);
    let current = state.provider_input_state("agent-1").unwrap();
    assert_eq!(current.generation, 2);
    assert_eq!(current.state, ProviderInputReadiness::Booting);
    assert_eq!(state.current_provider_input_generation("agent-1"), Some(2));
}

#[test]
fn failed_replacement_restores_ready_input_and_fences_late_candidate_events() {
    let mut state = InteractionState::new();
    let original = state.start_provider_input_generation("agent-1", ProviderInputReadiness::Ready, Some(ProviderReadyEvidence::ProviderEvent), NOW);
    let snapshot = state.capture_provider_input_rollback_snapshot("agent-1");
    let candidate = state.start_provider_input_generation("agent-1", ProviderInputReadiness::Booting, None, NOW);
    let recovery = state.provider_input_rollback_recovery("agent-1", snapshot);
    assert_eq!(recovery.discarded_generation, Some(candidate.generation));
    state.apply_provider_input_rollback_recovery("agent-1", &recovery, true);
    state.record_provider_input_state("agent-1", candidate.generation, ProviderInputReadiness::Busy, None, LATER);

    let restored = state.provider_input_state("agent-1").unwrap();
    assert_eq!(restored.generation, original.generation);
    assert_eq!(restored.state, ProviderInputReadiness::Ready);
    assert_eq!(restored.ready_evidence, Some(ProviderReadyEvidence::ProviderEvent));
    assert_eq!(state.current_provider_input_generation("agent-1"), Some(original.generation));
    let next = state.start_provider_input_generation("agent-1", ProviderInputReadiness::Booting, None, LATER);
    assert!(next.generation > candidate.generation);
}

#[test]
fn status_sequences_older_than_the_last_seen_change_nothing() {
    let mut state = InteractionState::new();
    state.record_provider_input_status_observation("agent-1", 5, 1, ProviderInputReadiness::Busy, None, NOW);
    let stale = state.record_provider_input_status_observation("agent-1", 4, 1, ProviderInputReadiness::Ready, Some(ProviderReadyEvidence::ProviderEvent), LATER);
    assert_eq!(stale.state, ProviderInputReadiness::Busy);
    let fresh = state.record_provider_input_status_observation("agent-1", 6, 1, ProviderInputReadiness::Ready, Some(ProviderReadyEvidence::ProviderEvent), LATER);
    assert_eq!(fresh.state, ProviderInputReadiness::Ready);
    assert!(state.provider_input_recovery_superseded(
        "agent-1",
        &wardian_state::interactions::ProviderInputRollbackRecovery {
            snapshot: state.capture_provider_input_rollback_snapshot("agent-x"),
            discarded_generation: Some(0),
        }
    ));
    state.clear_provider_input_state_in_memory("agent-1");
    assert!(state.provider_input_state("agent-1").is_none());
}

#[test]
fn interactions_and_provider_state_hydrate_from_persistence() {
    let mut source = InteractionState::new();
    let record = task(&mut source, "t-1", Some("planner-1"), "agent-1");
    let answer = source
        .complete_task_with_reply("t-1", Some("agent-1"), ReplyStatus::Blocked, "blocked", "r-1".to_string(), NOW.to_string())
        .unwrap();
    let input = source.start_provider_input_generation("agent-1", ProviderInputReadiness::Ready, Some(ProviderReadyEvidence::ProviderEvent), NOW);

    let mut hydrated = InteractionState::new();
    hydrated.hydrate_from_persistence(vec![record, answer.task.clone(), answer.reply_record.clone()], vec![answer.reply.clone()], vec![input]);
    assert_eq!(hydrated.interaction("t-1").unwrap().status, InteractionStatus::Completed);
    assert_eq!(hydrated.structured_reply("t-1").unwrap().status, ReplyStatus::Blocked);
    assert_eq!(hydrated.provider_input_state("agent-1").unwrap().state, ProviderInputReadiness::Ready);
    assert_eq!(hydrated.current_provider_input_generation("agent-1"), Some(1));
}

#[test]
fn the_inbox_lists_notifications_newest_first_a_page_at_a_time() {
    let mut state = InteractionState::new();
    let update = |title: &str| InboxNotificationPayload { kind: InboxNotificationKind::Update, title: title.to_string(), ..approval(None) };
    for (id, at) in [("n-b", "2026-03-01T10:00:00.000Z"), ("n-a", "2026-03-01T11:00:00.000Z"), ("n-c", "2026-03-01T10:00:00.000Z")] {
        let records = state
            .create_notification_durable(id.to_string(), "agent-1".to_string(), update(id), "{}".to_string(), at.to_string())
            .expect("update");
        state.commit_record(records[0].clone());
    }
    task(&mut state, "t-1", None, "agent-1");
    let (first, more) = state.inbox_notifications_page(0, 2);
    assert_eq!(first.iter().map(|r| r.id.as_str()).collect::<Vec<_>>(), vec!["n-a", "n-c"]);
    assert!(more);
    let (rest, more) = state.inbox_notifications_page(2, 2);
    assert_eq!(rest.iter().map(|r| r.id.as_str()).collect::<Vec<_>>(), vec!["n-b"]);
    assert!(!more);
    let (beyond, more) = state.inbox_notifications_page(9, 2);
    assert!(beyond.is_empty() && !more);
    let (all, more) = state.inbox_notifications(3);
    assert_eq!(all.len(), 3);
    assert!(!more);
}

#[test]
fn startup_resolves_retains_or_applies_each_recovery_marker() {
    let mut state = InteractionState::new();
    state.start_provider_input_generation("agent-1", ProviderInputReadiness::Ready, None, NOW);
    state.start_provider_input_generation("agent-1", ProviderInputReadiness::Ready, None, NOW);
    let marker = |discarded: u64, state: &InteractionState| wardian_state::interactions::ProviderInputRollbackRecovery {
        snapshot: state.capture_provider_input_rollback_snapshot("agent-x"),
        discarded_generation: Some(discarded),
    };
    let old = marker(1, &state);
    let current = marker(2, &state);
    assert_eq!(state.provider_input_recovery_step("agent-1", &old, Some(false)), wardian_state::interactions::RecoveryStep::Resolve);
    assert_eq!(state.provider_input_recovery_step("agent-1", &old, None), wardian_state::interactions::RecoveryStep::Retain);
    assert_eq!(state.provider_input_recovery_step("agent-1", &old, Some(true)), wardian_state::interactions::RecoveryStep::Resolve);
    assert_eq!(state.provider_input_recovery_step("agent-1", &current, Some(true)), wardian_state::interactions::RecoveryStep::Apply);
}
