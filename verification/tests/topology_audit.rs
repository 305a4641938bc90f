use wardian_state::topology_audit::{audit_line, audit_log_archive_path, audit_log_path, should_rotate_audit_log, AUDIT_LOG_ROTATE_BYTES};

#[test]
fn the_log_rotates_once_it_reaches_the_limit() {
    assert!(!should_rotate_audit_log(None, AUDIT_LOG_ROTATE_BYTES));
    assert!(!should_rotate_audit_log(Some(AUDIT_LOG_ROTATE_BYTES - 1), AUDIT_LOG_ROTATE_BYTES));
    assert!(should_rotate_audit_log(Some(AUDIT_LOG_ROTATE_BYTES), AUDIT_LOG_ROTATE_BYTES));
    assert!(should_rotate_audit_log(Some(10), 1));
    assert_eq!(AUDIT_LOG_ROTATE_BYTES, 10 * 1024 * 1024);
}

#[test]
fn the_log_lives_under_topology_and_holds_one_record_per_line() {
    assert_eq!(audit_log_path("/home/w"), "/home/w/topology/audit.jsonl");
    assert_eq!(audit_log_path("/home/w/"), "/home/w/topology/audit.jsonl");
    assert_eq!(audit_log_path(""), "topology/audit.jsonl");
    assert_eq!(audit_log_archive_path(""), "topology/audit.jsonl.1");
    assert_eq!(audit_log_archive_path("/home/w"), "/home/w/topology/audit.jsonl.1");
    assert_eq!(audit_line("{\"a\":1}"), b"{\"a\":1}\n".to_vec());
}
