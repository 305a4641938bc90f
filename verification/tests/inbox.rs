use wardian_state::inbox::{
    clear_read_keep, current_queue_item, dismiss_keep, mark_all_read_changes, mark_read_change,
    page_remote_agent_chat_events, parse_inbox_action, resolve_approval_route, validate_remote_agent_action,
    validate_remote_mark_read, ApprovalRoute, AutomationApprovalRef, InboxAction, InboxItem, MarkReadChange,
    RemoteAgentActionRequest, newest_first, remote_queue_plan, provider_choice_step, provider_choice_record,
    queue_timestamp, NotificationSummary, QueueSource, ProviderChoiceStep, ProviderChoiceRecord,
};
use wardian_state::mailbox::MessageInputMode;

fn item() -> InboxItem {
    InboxItem {
        id: None,
        item_type: None,
        has_inbox_notification_id: false,
        inbox_notification_id: None,
        automation_approval: None,
        notification_status: None,
        has_dismissed: false,
        has_provider_choice_pending: false,
        has_provider_choice_sent: false,
        read: None,
        approval_choices: Vec::new(),
        timestamp: None,
        agent_session_id: None,
        provider_choice_pending: None,
        provider_choice_sent: None,
    }
}

fn typed(kind: &str) -> InboxItem {
    InboxItem { item_type: Some(kind.to_string()), ..item() }
}

fn with_id(id: &str, kind: &str) -> InboxItem {
    InboxItem { id: Some(id.to_string()), ..typed(kind) }
}

fn notice(id: &str, notification: &str) -> InboxItem {
    InboxItem {
        has_inbox_notification_id: true,
        inbox_notification_id: Some(notification.to_string()),
        ..with_id(id, "agent_update")
    }
}

fn acknowledgement(notification: &str) -> InboxItem {
    InboxItem {
        has_inbox_notification_id: true,
        inbox_notification_id: Some(notification.to_string()),
        read: Some(true),
        ..typed("agent_update")
    }
}

fn approval_ref(run_id: &str) -> AutomationApprovalRef {
    AutomationApprovalRef {
        blueprint_id: Some("bp-1".to_string()),
        run_id: Some(run_id.to_string()),
        blueprint_path: Some("flows/deploy.json".to_string()),
        node: Some("gate".to_string()),
    }
}

fn request(action: &str, prompt: Option<&str>, input_mode: Option<MessageInputMode>) -> RemoteAgentActionRequest {
    RemoteAgentActionRequest {
        action: action.to_string(),
        target: "agent-1".to_string(),
        prompt: prompt.map(str::to_string),
        input_mode,
        inbox_item_id: None,
    }
}

#[test]
fn pending_approval_guard_covers_automation_and_manual_approvals() {
    let automation = InboxItem {
        automation_approval: Some(AutomationApprovalRef {
            blueprint_id: None,
            run_id: Some("run-1".to_string()),
            blueprint_path: None,
            node: None,
        }),
        ..item()
    };
    assert!(automation.is_pending_approval());
    let manual = InboxItem { notification_status: Some("awaiting_reply".to_string()), ..typed("approval_request") };
    assert!(manual.is_pending_approval());
    let answered = InboxItem { notification_status: Some("completed".to_string()), ..typed("approval_request") };
    assert!(!answered.is_pending_approval());
}

#[test]
fn remote_mark_read_guard_rejects_pending_provider_choice() {
    let pending = InboxItem { read: Some(false), has_provider_choice_pending: true, ..typed("action_needed") };
    let error = validate_remote_mark_read(&pending).expect_err("pending provider choice must remain unread");
    assert_eq!(error, "provider_choice_delivery_uncertain_cannot_be_marked_read");

    let sent = InboxItem { read: Some(false), has_provider_choice_sent: true, ..typed("action_needed") };
    assert!(validate_remote_mark_read(&sent).is_ok());
}

#[test]
fn clear_read_only_targets_legacy_completion_items() {
    assert!(typed("agent_completed").is_clearable_legacy_completion());
    assert!(typed("automation_completed").is_clearable_legacy_completion());
    assert!(!typed("action_needed").is_clearable_legacy_completion());
    assert!(!typed("agent_update").is_clearable_legacy_completion());
    let notified = InboxItem {
        has_inbox_notification_id: true,
        inbox_notification_id: Some("notice-1".to_string()),
        ..typed("agent_completed")
    };
    assert!(!notified.is_clearable_legacy_completion());
    let pending = InboxItem { read: Some(true), has_provider_choice_pending: true, ..typed("automation_completed") };
    assert!(!pending.is_clearable_legacy_completion());
    let dismissed = InboxItem { read: Some(true), has_dismissed: true, ..typed("automation_completed") };
    assert!(!dismissed.is_clearable_legacy_completion());
    let sent = InboxItem { read: Some(false), has_provider_choice_sent: true, ..typed("agent_completed") };
    assert!(!sent.is_clearable_legacy_completion());
}

#[test]
fn unresolved_provider_choice_cannot_be_dismissed() {
    let pending = InboxItem { has_provider_choice_pending: true, read: Some(false), ..item() };
    assert!(pending.provider_choice_acknowledgement_unresolved());
    let sent_unread = InboxItem { has_provider_choice_sent: true, read: Some(false), ..item() };
    assert!(sent_unread.provider_choice_acknowledgement_unresolved());
    let sent_read = InboxItem { has_provider_choice_sent: true, read: Some(true), ..item() };
    assert!(!sent_read.provider_choice_acknowledgement_unresolved());
}

#[test]
fn remote_agent_chat_pages_keep_the_newest_events_and_a_stable_older_cursor() {
    let events: Vec<String> = (1..=85).map(|sequence| format!("event-{sequence}")).collect();

    let latest = page_remote_agent_chat_events(events.clone(), None, 40);
    assert_eq!(latest.events.len(), 40);
    assert_eq!(latest.events.first().map(String::as_str), Some("event-46"));
    assert_eq!(latest.events.last().map(String::as_str), Some("event-85"));
    assert!(latest.has_older);
    assert_eq!(latest.next_before, Some(45));

    let older = page_remote_agent_chat_events(events.clone(), latest.next_before, 40);
    assert_eq!(older.events.len(), 40);
    assert_eq!(older.events.first().map(String::as_str), Some("event-6"));
    assert_eq!(older.events.last().map(String::as_str), Some("event-45"));
    assert!(older.has_older);
    assert_eq!(older.next_before, Some(5));

    let first_page = page_remote_agent_chat_events(events, older.next_before, 40);
    assert_eq!(first_page.events.len(), 5);
    assert_eq!(first_page.events.first().map(String::as_str), Some("event-1"));
    assert!(!first_page.has_older);
    assert_eq!(first_page.next_before, None);
}

#[test]
fn run_remote_agent_action_rejects_unknown_actions_before_dispatch() {
    let request = request("open_shell", None, None);
    assert_eq!(validate_remote_agent_action(&request).unwrap_err(), "unsupported_remote_agent_action");
}

#[test]
fn remote_send_prompt_accepts_command_mode() {
    let request = request("send_prompt", Some("/status"), Some(MessageInputMode::Command));
    validate_remote_agent_action(&request).expect("command mode should be accepted");
}

#[test]
fn remote_send_prompt_rejects_approval_action_mode() {
    let request = request("send_prompt", Some("1"), Some(MessageInputMode::ApprovalAction));
    assert_eq!(validate_remote_agent_action(&request).unwrap_err(), "unsupported_remote_input_mode");
}

#[test]
fn remote_agent_action_rejects_clone() {
    let request = request("clone", None, None);
    assert_eq!(validate_remote_agent_action(&request).unwrap_err(), "unsupported_remote_agent_action");
}

#[test]
fn a_blank_prompt_is_required_before_anything_is_sent() {
    assert_eq!(validate_remote_agent_action(&request("send_prompt", Some("   "), None)).unwrap_err(), "prompt_required");
    assert_eq!(validate_remote_agent_action(&request("send_prompt", None, None)).unwrap_err(), "prompt_required");
    assert!(validate_remote_agent_action(&request("send_prompt", Some("hi"), Some(MessageInputMode::Message))).is_ok());
    for action in ["pause", "resume", "clear", "kill"] {
        assert!(validate_remote_agent_action(&request(action, None, None)).is_ok());
    }
}

#[test]
fn inbox_actions_are_a_closed_set() {
    assert_eq!(parse_inbox_action("mark_read"), Ok(InboxAction::MarkRead));
    assert_eq!(parse_inbox_action("mark_all_read"), Ok(InboxAction::MarkAllRead));
    assert_eq!(parse_inbox_action("clear_read"), Ok(InboxAction::ClearRead));
    assert_eq!(parse_inbox_action("dismiss"), Ok(InboxAction::Dismiss));
    assert_eq!(parse_inbox_action("resolve_approval"), Ok(InboxAction::ResolveApproval));
    assert_eq!(parse_inbox_action("archive"), Err("unsupported_inbox_action".to_string()));
}

#[test]
fn the_first_item_with_the_id_is_the_current_one() {
    let items = vec![with_id("a", "agent_completed"), with_id("b", "agent_update"), with_id("b", "agent_completed")];
    assert_eq!(current_queue_item(&items, "b"), Ok(1));
    assert_eq!(current_queue_item(&items, "z"), Err("inbox_item_not_found".to_string()));
}

#[test]
fn marking_a_notification_read_appends_one_acknowledgement() {
    let projected = vec![notice("item-1", "notice-1")];
    assert_eq!(
        mark_read_change(&projected, &[], Some("item-1")),
        Ok(MarkReadChange::Acknowledge("notice-1".to_string()))
    );
    let persisted = vec![acknowledgement("notice-1")];
    assert_eq!(mark_read_change(&projected, &persisted, Some("item-1")), Ok(MarkReadChange::AlreadyAcknowledged));
}

#[test]
fn marking_a_legacy_item_read_sets_its_persisted_flag() {
    let projected = vec![with_id("item-2", "agent_completed")];
    let persisted = vec![with_id("other", "agent_completed"), with_id("item-2", "agent_completed")];
    assert_eq!(mark_read_change(&projected, &persisted, Some("item-2")), Ok(MarkReadChange::SetRead(1)));
    assert_eq!(
        mark_read_change(&projected, &persisted[..1], Some("item-2")),
        Err("inbox_item_not_persisted".to_string())
    );
    assert_eq!(mark_read_change(&projected, &persisted, None), Err("item_id_required".to_string()));
    assert_eq!(mark_read_change(&projected, &persisted, Some("gone")), Err("inbox_item_not_found".to_string()));
}

#[test]
fn a_pending_approval_cannot_be_marked_read() {
    let projected = vec![InboxItem { automation_approval: Some(approval_ref("run-1")), ..with_id("item-3", "action_needed") }];
    assert_eq!(
        mark_read_change(&projected, &[], Some("item-3")),
        Err("pending_approval_cannot_be_marked_read".to_string())
    );
}

#[test]
fn mark_all_read_covers_legacy_items_and_unacknowledged_updates() {
    let persisted = vec![
        with_id("legacy", "agent_completed"),
        InboxItem { has_provider_choice_pending: true, ..with_id("pending", "action_needed") },
        acknowledgement("notice-1"),
    ];
    let projected = vec![notice("n1", "notice-1"), notice("n2", "notice-2"), with_id("legacy", "agent_completed")];
    let (set_read, acknowledgements) = mark_all_read_changes(&projected, &persisted);
    assert_eq!(set_read, vec![0]);
    assert_eq!(acknowledgements, vec!["notice-2".to_string()]);
}

#[test]
fn clearing_read_items_keeps_everything_but_read_legacy_completions() {
    let persisted = vec![
        InboxItem { read: Some(true), ..with_id("done", "agent_completed") },
        InboxItem { read: Some(false), ..with_id("unread", "agent_completed") },
        InboxItem { read: Some(true), ..with_id("update", "agent_update") },
        InboxItem { read: Some(true), ..with_id("auto", "automation_completed") },
    ];
    assert_eq!(clear_read_keep(&persisted), vec![1, 2]);
}

#[test]
fn dismissing_removes_every_persisted_copy_of_a_plain_item() {
    let projected = vec![with_id("x", "agent_completed"), notice("n", "notice-1")];
    let persisted = vec![with_id("x", "agent_completed"), with_id("y", "agent_completed"), with_id("x", "agent_update")];
    assert_eq!(dismiss_keep(&projected, &persisted, Some("x")), Ok(vec![1]));
    assert_eq!(dismiss_keep(&projected, &persisted, Some("n")), Err("inbox_item_not_dismissible".to_string()));
    assert_eq!(dismiss_keep(&projected, &persisted, Some("q")), Err("inbox_item_not_found".to_string()));
    assert_eq!(dismiss_keep(&projected, &persisted, None), Err("item_id_required".to_string()));
}

#[test]
fn an_approval_answer_goes_to_its_notification_or_automation() {
    let choices = vec!["Approve".to_string(), "Reject".to_string()];
    let manual = InboxItem { approval_choices: choices.clone(), ..notice("m", "notice-9") };
    let automation = InboxItem {
        automation_approval: Some(approval_ref("run-7")),
        approval_choices: choices.clone(),
        ..with_id("a", "action_needed")
    };
    let plain = InboxItem { approval_choices: choices.clone(), ..with_id("p", "action_needed") };
    let broken = InboxItem {
        automation_approval: Some(AutomationApprovalRef { node: None, ..approval_ref("run-8") }),
        approval_choices: choices,
        ..with_id("b", "action_needed")
    };
    let projected = vec![manual, automation, plain, broken];

    assert_eq!(
        resolve_approval_route(&projected, Some("m"), Some("Reject")),
        Ok(ApprovalRoute::Notification("notice-9".to_string()))
    );
    assert_eq!(
        resolve_approval_route(&projected, Some("a"), Some("Approve")),
        Ok(ApprovalRoute::Automation {
            blueprint_id: "bp-1".to_string(),
            run_id: "run-7".to_string(),
            blueprint_path: "flows/deploy.json".to_string(),
            node: "gate".to_string(),
            approve: true,
        })
    );
    assert_eq!(resolve_approval_route(&projected, Some("a"), Some("Maybe")), Err("invalid_choice".to_string()));
    assert_eq!(resolve_approval_route(&projected, Some("p"), Some("Approve")), Err("inbox_item_not_approval".to_string()));
    assert_eq!(resolve_approval_route(&projected, Some("b"), Some("Reject")), Err("automation_node_missing".to_string()));
    assert_eq!(resolve_approval_route(&projected, Some("a"), None), Err("choice_required".to_string()));
    assert_eq!(resolve_approval_route(&projected, None, Some("Approve")), Err("item_id_required".to_string()));
}

#[test]
fn newer_items_come_first_and_ties_keep_their_order() {
    assert_eq!(newest_first(&[5, 9, 5, 1, 9]), vec![1, 4, 0, 2, 3]);
    assert_eq!(newest_first(&[]), Vec::<usize>::new());
    assert_eq!(newest_first(&[-3, 0, -3]), vec![1, 0, 2]);
}

#[test]
fn the_remote_inbox_merges_notifications_approvals_and_plain_items_newest_first() {
    let persisted = vec![
        InboxItem { timestamp: Some(300), ..with_id("plain", "agent_completed") },
        InboxItem { timestamp: Some(50), read: Some(true), ..notice("ack", "notice-1") },
        InboxItem { timestamp: Some(900), has_dismissed: true, ..with_id("gone", "agent_completed") },
        with_id("undated", "action_needed"),
    ];
    let notifications = vec![
        NotificationSummary { id: "notice-1".to_string(), is_approval: false, awaiting_reply: false, timestamp: 100 },
        NotificationSummary { id: "notice-2".to_string(), is_approval: true, awaiting_reply: true, timestamp: 400 },
        NotificationSummary { id: "notice-3".to_string(), is_approval: false, awaiting_reply: false, timestamp: 300 },
    ];
    let plan = remote_queue_plan(&persisted, &notifications, &[200]);
    assert_eq!(
        plan,
        vec![
            QueueSource::Notification { index: 1, read: false },
            QueueSource::Notification { index: 2, read: false },
            QueueSource::Persisted(0),
            QueueSource::Automation(0),
            QueueSource::Notification { index: 0, read: true },
            QueueSource::Persisted(3),
        ]
    );
    let answered = vec![NotificationSummary { id: "n".to_string(), is_approval: true, awaiting_reply: false, timestamp: 1 }];
    assert_eq!(remote_queue_plan(&[], &answered, &[]), vec![QueueSource::Notification { index: 0, read: true }]);
}

#[test]
fn a_well_formed_time_stamps_the_queue_with_its_milliseconds() {
    assert_eq!(queue_timestamp("2026-01-02T03:04:05.678Z"), 1_767_323_045_678);
    assert_eq!(queue_timestamp("1970-01-01T00:00:01+01:00"), -3_599_000);
    assert!(queue_timestamp("not a time") > 1_700_000_000_000);
}

fn action(id: &str, agent: &str) -> InboxItem {
    InboxItem { agent_session_id: Some(agent.to_string()), ..with_id(id, "action_needed") }
}

#[test]
fn a_provider_answer_is_dispatched_once_and_never_replayed() {
    let persisted = vec![
        action("fresh", "agent-1"),
        InboxItem { provider_choice_pending: Some("1".to_string()), ..action("pending", "agent-1") },
        InboxItem { provider_choice_sent: Some("2".to_string()), ..action("sent", "agent-1") },
        InboxItem { agent_session_id: Some("agent-1".to_string()), ..with_id("update", "agent_update") },
    ];
    assert_eq!(provider_choice_step(&persisted, "fresh", "agent-1", "1"), Ok(ProviderChoiceStep::Dispatch(0)));
    assert_eq!(provider_choice_step(&persisted, "fresh", "agent-2", "1"), Err("inbox_item_agent_mismatch".to_string()));
    assert_eq!(provider_choice_step(&persisted, "missing", "agent-1", "1"), Err("inbox_item_not_found".to_string()));
    assert_eq!(
        provider_choice_step(&persisted, "pending", "agent-1", "1"),
        Err("provider_choice_delivery_uncertain".to_string())
    );
    assert_eq!(provider_choice_step(&persisted, "pending", "agent-1", "2"), Err("provider_choice_already_sent".to_string()));
    assert_eq!(provider_choice_step(&persisted, "sent", "agent-1", "2"), Ok(ProviderChoiceStep::AlreadySent));
    assert_eq!(provider_choice_step(&persisted, "sent", "agent-1", "3"), Err("provider_choice_already_sent".to_string()));
    assert_eq!(provider_choice_step(&persisted, "update", "agent-1", "1"), Err("inbox_item_not_provider_action".to_string()));

    assert_eq!(provider_choice_record(true, false), ProviderChoiceRecord::MarkSent);
    assert_eq!(provider_choice_record(false, true), ProviderChoiceRecord::ClearPending);
    assert_eq!(provider_choice_record(false, false), ProviderChoiceRecord::KeepPending);
}
