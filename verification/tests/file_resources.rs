use wardian_state::file_resources::{
    authorize_recovery_manifest, check_existing_blob, check_manifest_file, check_recovery_id, collectable_blob,
    durable_user_file_grant_matches, enforce_recovery_admission, is_recovery_blob_name, next_recovery_revision,
    recovery_blob_name, recovery_ids_from, recovery_summary_metadata, store_usage, ticket_range_length,
    upsert_grant_paths, validate_grant_store, verify_blob_text, DurableUserFileGrantStoreV1, FileRecoveryManifestV1,
    FileRecoveryStoreLimits, FileRecoveryStoreUsage,
};

fn manifest() -> FileRecoveryManifestV1 {
    FileRecoveryManifestV1 {
        schema: 1,
        recovery_id: "0b4bb2c2-2f1e-4a57-9a53-2c1c4b0c2b65".to_string(),
        resource_key: "file:/a".to_string(),
        display_name: "a".to_string(),
        extension: Some("txt".to_string()),
        mime_type: "text/plain".to_string(),
        base_content_hash: "h".to_string(),
        base_opaque_revision: "r".to_string(),
        base_blob: recovery_blob_name("base"),
        buffer_blob: recovery_blob_name("buffer"),
        recovery_revision: 3,
        webview_scope: "main".to_string(),
        created_at_ms: 1,
        updated_at_ms: 2,
    }
}

#[test]
fn ranges_outside_the_snapshot_are_refused() {
    assert_eq!(ticket_range_length(0, 9, 10).unwrap(), 10);
    assert_eq!(ticket_range_length(5, 5, 10).unwrap(), 1);
    assert_eq!(ticket_range_length(5, 4, 10).unwrap_err().code, "range_not_satisfiable");
    assert_eq!(ticket_range_length(0, 10, 10).unwrap_err().code, "range_not_satisfiable");
}

#[test]
fn blob_names_are_content_addresses() {
    let name = recovery_blob_name("");
    assert_eq!(name, "sha256-e3b0c44298fc1c149afbf4c8996fb92427ae41e4649b934ca495991b7852b855.txt");
    assert!(is_recovery_blob_name(&name));
    assert!(is_recovery_blob_name(&name.to_uppercase().replace("SHA256-", "sha256-").replace(".TXT", ".txt")));
    assert!(!is_recovery_blob_name("sha256-xyz.txt"));
    assert!(!is_recovery_blob_name(&name.replace(".txt", ".bin")));
    assert!(verify_blob_text("", &name).is_ok());
    assert_eq!(verify_blob_text("x", &name).unwrap_err().code, "invalid_recovery");
}

#[test]
fn grant_stores_are_checked_and_updated_newest_last() {
    let store = DurableUserFileGrantStoreV1 {
        schema_version: 1,
        canonical_paths: vec!["/a".to_string(), "/b".to_string()],
    };
    assert!(validate_grant_store(store.clone()).is_ok());
    let bad = DurableUserFileGrantStoreV1 { schema_version: 2, canonical_paths: vec![] };
    assert_eq!(validate_grant_store(bad).unwrap_err().code, "grant_store_unavailable");
    let blank = DurableUserFileGrantStoreV1 { schema_version: 1, canonical_paths: vec![" ".to_string()] };
    assert!(validate_grant_store(blank).is_err());
    assert!(durable_user_file_grant_matches(&store.canonical_paths, "/b"));
    assert!(!durable_user_file_grant_matches(&store.canonical_paths, "/c"));
    assert_eq!(
        upsert_grant_paths(store.canonical_paths.clone(), "/a", 128),
        vec!["/b".to_string(), "/a".to_string()]
    );
    assert_eq!(upsert_grant_paths(store.canonical_paths, "/c", 2), vec!["/b".to_string(), "/c".to_string()]);
}

#[test]
fn manifests_belong_to_one_resource_and_scope() {
    let m = manifest();
    assert!(authorize_recovery_manifest(&m, "file:/a", "main").is_ok());
    assert_eq!(authorize_recovery_manifest(&m, "file:/b", "main").unwrap_err().code, "unauthorized_recovery");
    assert_eq!(authorize_recovery_manifest(&m, "file:/a", "other").unwrap_err().code, "unauthorized_recovery");
    assert!(check_manifest_file(true, 65536).is_ok());
    assert!(check_manifest_file(true, 65537).is_err());
    assert!(check_manifest_file(false, 1).is_err());
    let summary = recovery_summary_metadata(&m);
    assert_eq!(summary.recovery_revision, 3);
    assert_eq!(summary.extension.as_deref(), Some("txt"));
}

#[test]
fn recovery_ids_must_be_canonical_uuids() {
    assert!(check_recovery_id("0b4bb2c2-2f1e-4a57-9a53-2c1c4b0c2b65").is_ok());
    assert_eq!(
        check_recovery_id("0B4BB2C2-2F1E-4A57-9A53-2C1C4B0C2B65").unwrap_err().message,
        "recovery id is not in canonical form"
    );
    assert_eq!(
        check_recovery_id("nope").unwrap_err().message,
        "recovery id is not a valid opaque identifier"
    );
    let names = vec![
        "ffffffff-0000-4000-8000-000000000000".to_string(),
        "junk".to_string(),
        "00000000-0000-4000-8000-000000000000".to_string(),
    ];
    assert_eq!(
        recovery_ids_from(&names),
        vec!["00000000-0000-4000-8000-000000000000".to_string(), "ffffffff-0000-4000-8000-000000000000".to_string()]
    );
}

#[test]
fn revisions_advance_until_exhausted() {
    assert_eq!(next_recovery_revision(4).unwrap(), 5);
    assert_eq!(next_recovery_revision(u64::MAX).unwrap_err().code, "recovery_conflict");
}

#[test]
fn existing_blobs_must_hold_the_same_bytes() {
    assert!(check_existing_blob(true, b"abc", "abc").is_ok());
    assert!(check_existing_blob(true, b"abd", "abc").is_err());
    assert!(check_existing_blob(false, b"abc", "abc").is_err());
}

#[test]
fn admission_counts_records_and_new_body_bytes() {
    let limits = FileRecoveryStoreLimits { max_records: 1, max_body_bytes: 10, orphan_grace_secs: 1 };
    let full = FileRecoveryStoreUsage { records: 1, body_bytes: 0 };
    assert_eq!(
        enforce_recovery_admission(full, false, "a", "b", &[], limits).unwrap_err().message,
        "durable editor recovery record limit is reached"
    );
    assert!(enforce_recovery_admission(full, true, "a", "b", &[], limits).is_ok());
    let usage = FileRecoveryStoreUsage { records: 0, body_bytes: 8 };
    assert!(enforce_recovery_admission(usage, false, "ab", "ab", &[], limits).is_ok());
    assert_eq!(
        enforce_recovery_admission(usage, false, "ab", "cd", &[], limits).unwrap_err().code,
        "recovery_capacity_exceeded"
    );
    let stored = vec![recovery_blob_name("cd")];
    assert!(enforce_recovery_admission(usage, true, "ab", "cd", &stored, limits).is_ok());
    assert_eq!(store_usage(2, &[u64::MAX, 5]).body_bytes, u64::MAX);
    assert_eq!(FileRecoveryStoreLimits::default().max_records, 128);
}

#[test]
fn only_unreferenced_old_blob_files_are_collected() {
    let m = manifest();
    let orphan = recovery_blob_name("orphan");
    assert!(collectable_blob(&orphan, &m, true, true));
    assert!(!collectable_blob(&orphan, &m, true, false));
    assert!(!collectable_blob(&m.base_blob, &m, true, true));
    assert!(!collectable_blob("notes.txt", &m, true, true));
}

#[test]
fn every_uuid_spelling_is_recognised_but_only_the_canonical_one_is_an_identity() {
    let not_canonical = "recovery id is not in canonical form";
    let invalid = "recovery id is not a valid opaque identifier";
    for spelling in [
        "0b4bb2c22f1e4a579a532c1c4b0c2b65",
        "{0b4bb2c2-2f1e-4a57-9a53-2c1c4b0c2b65}",
        "urn:uuid:0b4bb2c2-2f1e-4a57-9a53-2c1c4b0c2b65",
        "URN:UUID:0b4bb2c2-2f1e-4a57-9a53-2c1c4b0c2b65",
        "0b4bb2c2-2F1E-4a57-9a53-2c1c4b0c2b65",
    ] {
        assert_eq!(check_recovery_id(spelling).unwrap_err().message, not_canonical, "{spelling}");
    }
    for garbage in [
        "",
        "0b4bb2c2-2f1e-4a57-9a53-2c1c4b0c2b6g",
        "0b4bb2c2_2f1e-4a57-9a53-2c1c4b0c2b65",
        "(0b4bb2c2-2f1e-4a57-9a53-2c1c4b0c2b65)",
        "urn:uid:0b4bb2c2-2f1e-4a57-9a53-2c1c4b0c2b65x",
        "0b4bb2c2-2f1e-4a57-9a53-2c1c4b0c2b65 ",
    ] {
        assert_eq!(check_recovery_id(garbage).unwrap_err().message, invalid, "{garbage:?}");
    }
}
