use wardian_state::mailbox::{
    ApprovalAction, MailboxDeliveryPhase, MailboxMessageDraft, MailboxMessageRecord, MailboxMessageStatus, MailboxState,
    MessageInputMode, MessageOrigin, QueuePolicy,
};

fn message_for(target_session_id: &str, body: &str) -> MailboxMessageDraft {
    MailboxMessageDraft {
        interaction_id: format!("int_{target_session_id}_{body}"),
        target_session_id: target_session_id.to_string(),
        body: body.to_string(),
        input_mode: MessageInputMode::Message,
        queue_policy: QueuePolicy::QueueIfBusy,
        approval_action: None,
        origin: None,
    }
}

#[test]
fn enqueueing_message_records_pending_mailbox_entry() {
    let mut mailbox = MailboxState::default();
    let record = mailbox.enqueue(message_for("agent-1", "hello"));
    assert_eq!(record.target_session_id, "agent-1");
    assert_eq!(record.body, "hello");
    assert_eq!(record.status, MailboxMessageStatus::Pending);
    assert_eq!(record.phase, MailboxDeliveryPhase::Queued);
    assert!(record.id.starts_with("msg_"));
    assert_eq!(mailbox.all().len(), 1);
}

#[test]
fn queued_message_preserves_interaction_id() {
    let mut mailbox = MailboxState::default();
    let record = mailbox.enqueue(message_for("agent-1", "hello"));
    assert_eq!(record.interaction_id, "int_agent-1_hello");
}

#[test]
fn message_ids_are_monotonic_with_stable_shape() {
    let mut mailbox = MailboxState::default();
    let first = mailbox.enqueue(message_for("agent-1", "one"));
    let second = mailbox.enqueue(message_for("agent-1", "two"));
    assert!(first.id.starts_with("msg_"));
    assert!(second.id.starts_with("msg_"));
    assert_ne!(first.id, second.id);
    assert!(first.id < second.id, "ids should sort in enqueue order: {} then {}", first.id, second.id);
}

#[test]
fn listing_can_filter_by_target_session_id() {
    let mut mailbox = MailboxState::default();
    mailbox.enqueue(message_for("agent-1", "one"));
    mailbox.enqueue(message_for("agent-2", "two"));
    mailbox.enqueue(message_for("agent-1", "three"));
    let agent_one = mailbox.list_for_target("agent-1");
    assert_eq!(agent_one.len(), 2);
    assert!(agent_one.iter().all(|record| record.target_session_id == "agent-1"));
    assert_eq!(agent_one[0].body, "one");
    assert_eq!(agent_one[1].body, "three");
}

#[test]
fn enqueue_preserves_approval_action_and_origin_metadata() {
    let mut mailbox = MailboxState::default();
    let origin = MessageOrigin::WardianAgent { session_id: "source-agent".to_string() };
    let approval_action = ApprovalAction::Select { option: "allow_once".to_string() };
    let record = mailbox.enqueue(MailboxMessageDraft {
        interaction_id: "int_approval".to_string(),
        target_session_id: "agent-1".to_string(),
        body: "approve".to_string(),
        input_mode: MessageInputMode::ApprovalAction,
        queue_policy: QueuePolicy::MailboxOnly,
        approval_action: Some(approval_action.clone()),
        origin: Some(origin.clone()),
    });
    assert_eq!(record.input_mode, MessageInputMode::ApprovalAction);
    assert_eq!(record.queue_policy, QueuePolicy::MailboxOnly);
    assert_eq!(record.approval_action, Some(approval_action));
    assert_eq!(record.origin, Some(origin));
}

#[test]
fn taking_next_pending_marks_only_first_target_message_in_flight() {
    let mut mailbox = MailboxState::default();
    let first = mailbox.enqueue(message_for("agent-1", "one"));
    let second = mailbox.enqueue(message_for("agent-1", "two"));
    mailbox.enqueue(message_for("agent-2", "other"));
    let taken = mailbox.take_next_pending_for_target("agent-1").unwrap();
    assert_eq!(taken.id, first.id);
    assert_eq!(taken.status, MailboxMessageStatus::InFlight);
    assert_eq!(taken.phase, MailboxDeliveryPhase::Dispatching);
    let agent_one = mailbox.list_for_target("agent-1");
    assert_eq!(agent_one[0].status, MailboxMessageStatus::InFlight);
    assert_eq!(agent_one[1].id, second.id);
    assert_eq!(agent_one[1].status, MailboxMessageStatus::Pending);
}

#[test]
fn terminal_markers_preserve_records_and_update_phase() {
    let mut mailbox = MailboxState::default();
    let delivered = mailbox.enqueue(message_for("agent-1", "one"));
    let failed = mailbox.enqueue(message_for("agent-1", "two"));
    let delivered = mailbox.mark_delivered(&delivered.id).unwrap();
    let failed = mailbox.mark_failed(&failed.id).unwrap();
    assert_eq!(delivered.status, MailboxMessageStatus::Delivered);
    assert_eq!(delivered.phase, MailboxDeliveryPhase::Terminal);
    assert_eq!(failed.status, MailboxMessageStatus::Failed);
    assert_eq!(failed.phase, MailboxDeliveryPhase::Terminal);
    assert_eq!(mailbox.all().len(), 2);
}

#[test]
fn terminal_compaction_keeps_only_recent_terminal_records_per_target() {
    let mut mailbox = MailboxState::default();
    let first = mailbox.enqueue(message_for("agent-1", "first"));
    mailbox.mark_delivered(&first.id).unwrap();
    for index in 0..70 {
        let record = mailbox.enqueue(message_for("agent-1", &format!("message-{index}")));
        mailbox.mark_delivered(&record.id).unwrap();
    }
    let records = mailbox.list_for_target("agent-1");
    assert_eq!(records.len(), 64);
    assert!(records.iter().all(|record| record.body != "first"));
}

#[test]
fn mark_pending_requeues_in_flight_message_for_retry() {
    let mut mailbox = MailboxState::default();
    let record = mailbox.enqueue(message_for("agent-1", "one"));
    mailbox.take_next_pending_for_target("agent-1").unwrap();
    let requeued = mailbox.mark_pending(&record.id).unwrap();
    assert_eq!(requeued.status, MailboxMessageStatus::Pending);
    assert_eq!(requeued.phase, MailboxDeliveryPhase::Queued);
    let pending = mailbox.take_next_pending_for_target("agent-1").unwrap();
    assert_eq!(pending.id, record.id);
}

#[test]
fn hydrate_preserves_pending_records_and_advances_the_id_allocator() {
    let mut mailbox = MailboxState::default();
    let record = MailboxMessageRecord {
        id: "msg_9999999999999_000003".to_string(),
        interaction_id: "int_restored".to_string(),
        target_session_id: "agent-1".to_string(),
        body: "restored work".to_string(),
        input_mode: MessageInputMode::Message,
        queue_policy: QueuePolicy::QueueIfBusy,
        approval_action: None,
        origin: None,
        created_at: "2026-08-01T00:00:00.000Z".to_string(),
        ready_after: None,
        status: MailboxMessageStatus::Pending,
        phase: MailboxDeliveryPhase::Queued,
    };
    mailbox.hydrate(vec![record.clone()]);
    let next = mailbox.enqueue(message_for("agent-1", "new work"));
    assert_eq!(mailbox.all()[0], record);
    assert_eq!(next.id, "msg_9999999999999_000004");
}

#[test]
fn identities_follow_the_clock_and_the_counter() {
    let mut mailbox = MailboxState::new();
    let a = mailbox.enqueue_at(message_for("agent-1", "a"), 1700000000123, "t".to_string());
    let b = mailbox.enqueue_at(message_for("agent-1", "b"), 1700000000123, "t".to_string());
    let c = mailbox.enqueue_at(message_for("agent-1", "c"), 1700000000100, "t".to_string());
    let d = mailbox.enqueue_at(message_for("agent-1", "d"), 1700000000200, "t".to_string());
    assert_eq!(a.id, "msg_1700000000123_000000");
    assert_eq!(b.id, "msg_1700000000123_000001");
    assert_eq!(c.id, "msg_1700000000123_000002");
    assert_eq!(d.id, "msg_1700000000200_000000");
    assert_eq!(mailbox.next_message_id(5), "msg_1700000000200_000001");
}

#[test]
fn hydrate_sorts_by_creation_then_identity() {
    let mut mailbox = MailboxState::new();
    let make = |id: &str, created_at: &str| MailboxMessageRecord {
        id: id.to_string(),
        interaction_id: String::new(),
        target_session_id: "agent-1".to_string(),
        body: id.to_string(),
        input_mode: MessageInputMode::Message,
        queue_policy: QueuePolicy::QueueIfBusy,
        approval_action: None,
        origin: None,
        created_at: created_at.to_string(),
        ready_after: None,
        status: MailboxMessageStatus::Pending,
        phase: MailboxDeliveryPhase::Queued,
    };
    mailbox.hydrate(vec![
        make("msg_0000000000002_000000", "2026-01-02"),
        make("msg_0000000000001_000005", "2026-01-01"),
        make("msg_0000000000001_000001", "2026-01-01"),
        make("not-a-message-id", "2025-12-31"),
    ]);
    let ids: Vec<String> = mailbox.all().into_iter().map(|record| record.id).collect();
    assert_eq!(
        ids,
        vec!["not-a-message-id", "msg_0000000000001_000001", "msg_0000000000001_000005", "msg_0000000000002_000000"]
    );
    assert_eq!(mailbox.next_message_id(0), "msg_0000000000002_000001");
}

#[test]
fn removal_by_identity_and_by_target() {
    let mut mailbox = MailboxState::new();
    let a = mailbox.enqueue_at(message_for("agent-1", "a"), 10, "t".to_string());
    mailbox.enqueue_at(message_for("agent-2", "b"), 11, "t".to_string());
    mailbox.enqueue_at(message_for("agent-1", "c"), 12, "t".to_string());
    assert_eq!(mailbox.remove(&a.id).unwrap().body, "a");
    assert!(mailbox.remove(&a.id).is_none());
    assert_eq!(mailbox.remove_for_target("agent-1"), 1);
    assert_eq!(mailbox.all().len(), 1);
    assert!(mailbox.set_ready_after("missing", Some("later".to_string())).is_none());
}
