use wardian_state::queue::{
    legacy_key_pair, merge_desktop_snapshot, normalize_legacy_item, normalize_legacy_items, LegacyItemShape,
    MergeStep, LEGACY_KEY_COUNT,
};

fn shape(type_value: Option<&str>, has_status: bool, legacy: [bool; 4], canonical: [bool; 4]) -> LegacyItemShape {
    LegacyItemShape {
        is_object: true,
        type_value: type_value.map(str::to_string),
        has_status,
        legacy_present: legacy.to_vec(),
        canonical_present: canonical.to_vec(),
    }
}

fn ids(values: &[Option<&str>]) -> Vec<Option<String>> {
    values.iter().map(|v| v.map(str::to_string)).collect()
}

#[test]
fn normalizes_legacy_completion_and_approval_fields_without_losing_state() {
    let (plans, migrated) = normalize_legacy_items(&[shape(Some("workflow_failed"), false, [true; 4], [false; 4])]);
    assert!(migrated);
    let plan = &plans[0];
    assert!(plan.rename_type);
    assert!(plan.add_failed_status);
    assert_eq!(plan.remove_legacy, vec![true; 4]);
    assert_eq!(plan.copy_to_canonical, vec![true; 4]);
    assert!(plan.migrated);
}

#[test]
fn the_renamed_keys_pair_legacy_and_canonical_names() {
    assert_eq!(LEGACY_KEY_COUNT, 4);
    assert_eq!(legacy_key_pair(0), ("workflow_id", "automation_id"));
    assert_eq!(legacy_key_pair(1), ("workflow_run_id", "automation_run_id"));
    assert_eq!(legacy_key_pair(2), ("workflow_name", "automation_name"));
    assert_eq!(legacy_key_pair(3), ("workflow_approval", "automation_approval"));
}

#[test]
fn a_canonical_value_already_present_is_not_overwritten() {
    let plan = normalize_legacy_item(&shape(Some("agent_completed"), false, [true, false, false, false], [true, false, false, false]));
    assert!(!plan.rename_type);
    assert_eq!(plan.remove_legacy, vec![true, false, false, false]);
    assert_eq!(plan.copy_to_canonical, vec![false; 4]);
    assert!(plan.migrated);
}

#[test]
fn a_failure_that_already_has_a_status_keeps_it() {
    let plan = normalize_legacy_item(&shape(Some("workflow_failed"), true, [false; 4], [false; 4]));
    assert!(plan.rename_type);
    assert!(!plan.add_failed_status);
    let completed = normalize_legacy_item(&shape(Some("workflow_completed"), false, [false; 4], [false; 4]));
    assert!(completed.rename_type && !completed.add_failed_status);
}

#[test]
fn a_canonical_record_is_left_alone_and_migration_is_idempotent() {
    let migrated_once = shape(Some("automation_completed"), true, [false; 4], [true; 4]);
    let (plans, migrated) = normalize_legacy_items(&[migrated_once]);
    assert!(!migrated);
    assert!(!plans[0].migrated);
    let not_object = LegacyItemShape { is_object: false, ..shape(Some("workflow_failed"), false, [true; 4], [false; 4]) };
    let plan = normalize_legacy_item(&not_object);
    assert!(!plan.migrated && !plan.rename_type && plan.remove_legacy == vec![false; 4]);
}

#[test]
fn without_a_baseline_the_persisted_queue_stays_authoritative() {
    let latest = ids(&[Some("first")]);
    let incoming = ids(&[Some("first"), Some("desktop-new")]);
    assert_eq!(merge_desktop_snapshot(None, &incoming, &latest), vec![MergeStep::Latest(0)]);
    assert_eq!(merge_desktop_snapshot(None, &incoming, &[]), Vec::<MergeStep>::new());
}

#[test]
fn with_a_baseline_remote_additions_and_desktop_removals_both_survive() {
    let base = ids(&[Some("kept"), Some("removed-on-desktop")]);
    let incoming = ids(&[Some("kept"), Some("desktop-new"), None]);
    let latest = ids(&[Some("kept"), Some("removed-on-desktop"), Some("remote-new"), None]);
    let merged = merge_desktop_snapshot(Some(base.as_slice()), &incoming, &latest);
    assert_eq!(
        merged,
        vec![
            MergeStep::Patched { incoming: 0, latest: 0 },
            MergeStep::Latest(2),
            MergeStep::Latest(3),
            MergeStep::Incoming(1),
            MergeStep::Incoming(2),
        ]
    );
}

#[test]
fn the_last_desktop_copy_of_an_id_is_the_one_patched() {
    let base = ids(&[Some("a")]);
    let incoming = ids(&[Some("a"), Some("a")]);
    let latest = ids(&[Some("a")]);
    assert_eq!(
        merge_desktop_snapshot(Some(base.as_slice()), &incoming, &latest),
        vec![MergeStep::Patched { incoming: 1, latest: 0 }]
    );
}
