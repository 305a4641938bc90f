use wardian_state::telemetry::{
    backups_to_prune, baseline_candidates, is_automatic_backup_name, is_automatic_backup_temp_name, new_backup_name,
    next_pass_delay_secs, retention_step, RetentionStep, PENDING_BACKUP_NAME,
};

#[test]
fn automatic_backup_names_are_scoped_to_the_rotation_prefix() {
    assert!(is_automatic_backup_name("state.db.telemetry-1756555200000-42.backup"));
    assert!(!is_automatic_backup_name("state.db.backup"));
    assert!(!is_automatic_backup_name("state.db.telemetry-1756555200000-42.tmp"));
    assert!(!is_automatic_backup_name(PENDING_BACKUP_NAME));
}

#[test]
fn pruning_keeps_the_two_newest_backup_names() {
    let names = vec![
        "state.db.telemetry-300-1.backup".to_string(),
        "state.db.telemetry-100-1.backup".to_string(),
        "unrelated.txt".to_string(),
        PENDING_BACKUP_NAME.to_string(),
        "state.db.telemetry-200-1.backup".to_string(),
    ];
    assert_eq!(backups_to_prune(&names), vec!["state.db.telemetry-100-1.backup".to_string()]);
    assert!(backups_to_prune(&names[..2]).is_empty());
}

#[test]
fn incomplete_backups_are_recognized_by_their_temporary_suffix() {
    assert!(is_automatic_backup_temp_name("state.db.telemetry-300-1.backup.tmp"));
    assert!(!is_automatic_backup_temp_name("state.db.telemetry-300-1.backup"));
    assert!(!is_automatic_backup_temp_name("other-300-1.backup.tmp"));
}

#[test]
fn a_new_backup_is_named_by_time_and_process() {
    assert_eq!(new_backup_name(1756555200000, 42), "state.db.telemetry-1756555200000-42.backup");
    assert!(is_automatic_backup_name(&new_backup_name(-5, 7)));
}

#[test]
fn baselines_are_looked_for_newest_first() {
    let names = vec![
        "state.db.telemetry-100-1.backup".to_string(),
        "state.db.telemetry-300-1.backup".to_string(),
        "state.db.telemetry-200-1.backup".to_string(),
    ];
    assert_eq!(
        baseline_candidates(&names),
        vec![
            "state.db.telemetry-300-1.backup".to_string(),
            "state.db.telemetry-200-1.backup".to_string(),
            "state.db.telemetry-100-1.backup".to_string(),
        ]
    );
}

#[test]
fn the_retention_step_follows_the_durable_markers() {
    assert_eq!(retention_step(false, false, false, false), RetentionStep::Idle);
    assert_eq!(retention_step(false, false, false, true), RetentionStep::RefreshPending);
    assert_eq!(retention_step(false, true, false, false), RetentionStep::RefreshPending);
    assert_eq!(retention_step(true, false, false, false), RetentionStep::AdoptLegacyBaseline);
    assert_eq!(retention_step(true, true, true, true), RetentionStep::RequireVerifiedPending);
    assert_eq!(next_pass_delay_secs(true), 86400);
    assert_eq!(next_pass_delay_secs(false), 900);
}
