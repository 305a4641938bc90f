use serde_json::Value;
use wardian_state::snapshot::{
    clamp_field, parse_ref, parse_snapshot, RawElement, RawSnapshot, RefError, SnapshotElement, SnapshotLedger,
    MAX_SNAPSHOT_ELEMENTS, MAX_SNAPSHOT_FIELD_CHARS,
};

fn text(value: &Value, key: &str) -> Option<String> {
    value.get(key).and_then(Value::as_str).map(str::to_string)
}

/// Reads the walker's JSON the way the session does before parsing it.
fn raw_snapshot(json: &str) -> RawSnapshot {
    let value: Value = serde_json::from_str(json).expect("json");
    RawSnapshot {
        url: text(&value, "url"),
        title: text(&value, "title"),
        elements: value.get("elements").and_then(Value::as_array).map(|items| {
            items
                .iter()
                .map(|raw| RawElement {
                    element_ref: text(raw, "element_ref"),
                    role: text(raw, "role"),
                    name: text(raw, "name"),
                    value: text(raw, "value"),
                    enabled: raw.get("enabled").and_then(Value::as_bool),
                    checked: raw.get("checked").and_then(Value::as_bool),
                })
                .collect()
        }),
        truncated: value.get("truncated").and_then(Value::as_bool),
    }
}

fn minted(count: usize) -> Vec<SnapshotElement> {
    (1..=count)
        .map(|index| SnapshotElement {
            element_ref: format!("e{index}"),
            role: "button".to_string(),
            name: format!("Button {index}"),
            value: String::new(),
            enabled: true,
            checked: None,
        })
        .collect()
}

#[test]
fn parses_well_formed_refs_only() {
    assert_eq!(parse_ref("e1"), Some(1));
    assert_eq!(parse_ref("e42"), Some(42));
    assert_eq!(parse_ref("e"), None);
    assert_eq!(parse_ref("x1"), None);
    assert_eq!(parse_ref("e1x"), None);
    assert_eq!(parse_ref("e-1"), None);
    assert_eq!(parse_ref(""), None);
}

#[test]
fn a_ref_taken_before_a_navigation_is_refused_as_stale() {
    let mut ledger = SnapshotLedger::default();
    ledger.record_snapshot(&minted(5));
    assert_eq!(ledger.validate("e3").expect("valid").name, "Button 3");
    ledger.invalidate();
    let error = ledger.validate("e3").expect_err("stale");
    assert_eq!(error.code(), "snapshot_stale");
    assert!(error.message().contains("Re-run snapshot"));
}

#[test]
fn acting_before_any_snapshot_is_refused() {
    let ledger = SnapshotLedger::default();
    assert_eq!(ledger.validate("e1").expect_err("no snapshot").code(), "snapshot_missing");
}

#[test]
fn a_ref_beyond_what_the_snapshot_minted_is_refused() {
    let mut ledger = SnapshotLedger::default();
    ledger.record_snapshot(&minted(2));
    assert_eq!(ledger.validate("e3").expect_err("detached").code(), "ref_detached");
    assert_eq!(ledger.validate("e0").expect_err("detached").code(), "ref_detached");
}

#[test]
fn a_malformed_ref_is_refused_before_anything_else() {
    let ledger = SnapshotLedger::default();
    assert_eq!(ledger.validate("button").expect_err("malformed").code(), "ref_malformed");
}

#[test]
fn re_snapshotting_after_a_navigation_restores_validity() {
    let mut ledger = SnapshotLedger::default();
    ledger.record_snapshot(&minted(3));
    ledger.invalidate();
    ledger.record_snapshot(&minted(4));
    assert_eq!(ledger.validate("e4").expect("valid").name, "Button 4");
}

#[test]
fn a_snapshot_replaces_rather_than_merges_the_previous_refs() {
    let mut ledger = SnapshotLedger::default();
    ledger.record_snapshot(&minted(4));
    ledger.record_snapshot(&minted(2));
    assert_eq!(ledger.validate("e3").expect_err("gone").code(), "ref_detached");
}

#[test]
fn a_changed_or_ambiguous_ref_has_its_own_code_and_advice() {
    let changed = RefError::Changed { element_ref: "e2".to_string() };
    assert_eq!(changed.code(), "ref_changed");
    assert!(changed.message().contains("Re-run snapshot"));
    let ambiguous = RefError::Ambiguous { element_ref: "e2".to_string() };
    assert_eq!(ambiguous.code(), "ref_ambiguous");
    assert!(ambiguous.message().contains("more than one element"));
}

#[test]
fn clamps_long_fields_and_collapses_whitespace() {
    assert_eq!(clamp_field("  a \n b  "), "a b");
    let long = "x".repeat(MAX_SNAPSHOT_FIELD_CHARS + 40);
    let clamped = clamp_field(&long);
    assert_eq!(clamped.chars().count(), MAX_SNAPSHOT_FIELD_CHARS);
    assert!(clamped.ends_with('…'));
}

#[test]
fn clamps_on_a_character_boundary_for_multi_byte_text() {
    let long = "é".repeat(MAX_SNAPSHOT_FIELD_CHARS + 10);
    let clamped = clamp_field(&long);
    assert_eq!(clamped.chars().count(), MAX_SNAPSHOT_FIELD_CHARS);
}

#[test]
fn a_stale_ref_reports_both_generations() {
    let mut ledger = SnapshotLedger::default();
    ledger.record_snapshot(&minted(1));
    assert_eq!(ledger.invalidate(), 1);
    assert_eq!(ledger.current_generation(), 1);
    match ledger.validate("e1") {
        Err(RefError::Stale { element_ref, snapshot_generation, current_generation }) => {
            assert_eq!(element_ref, "e1");
            assert_eq!(snapshot_generation, 0);
            assert_eq!(current_generation, 1);
        }
        other => panic!("expected a stale ref, got {other:?}"),
    }
}

#[test]
fn parses_a_walker_result_into_clamped_elements() {
    let raw = raw_snapshot(
        r#"{
            "url": "https://example.com/",
            "title": "Example",
            "truncated": false,
            "elements": [
                { "element_ref": "e1", "role": "link", "name": "  More   info  ", "value": "", "enabled": true },
                { "element_ref": "e2", "role": "checkbox", "name": "Agree", "value": "", "enabled": false, "checked": true },
                { "element_ref": "bogus", "role": "link", "name": "skipped" }
            ]
        }"#,
    );
    let snapshot = parse_snapshot(4, true, &raw).expect("snapshot");
    assert_eq!(snapshot.generation, 4);
    assert!(snapshot.interactive_only);
    assert_eq!(snapshot.elements.len(), 2, "malformed refs are dropped");
    assert_eq!(snapshot.elements[0].name, "More info");
    assert_eq!(snapshot.elements[1].checked, Some(true));
    assert!(!snapshot.elements[1].enabled);
    assert_eq!(snapshot.url, "https://example.com/");
    assert!(!snapshot.truncated);
}

#[test]
fn rejects_a_result_without_an_elements_array() {
    assert!(parse_snapshot(1, true, &raw_snapshot(r#"{ "url": "x" }"#)).is_err());
}

#[test]
fn a_walker_report_beyond_the_element_cap_is_truncated() {
    let element = RawElement {
        element_ref: Some("e1".to_string()),
        role: None,
        name: None,
        value: None,
        enabled: None,
        checked: None,
    };
    let raw = RawSnapshot {
        url: None,
        title: None,
        elements: Some(vec![element; MAX_SNAPSHOT_ELEMENTS + 5]),
        truncated: None,
    };
    let snapshot = parse_snapshot(2, false, &raw).expect("snapshot");
    assert_eq!(snapshot.elements.len(), MAX_SNAPSHOT_ELEMENTS);
    assert!(snapshot.truncated);
    assert_eq!(snapshot.url, "");
    assert!(snapshot.elements[0].enabled);
}

#[test]
fn a_written_ref_parses_back_to_its_number() {
    for n in [0usize, 1, 9, 10, 12345, usize::MAX] {
        assert_eq!(parse_ref(&format!("e{n}")), Some(n));
    }
}

#[test]
fn after_a_navigation_every_ref_is_stale_not_missing() {
    let mut ledger = SnapshotLedger::new();
    ledger.record_snapshot(&[]);
    let current = ledger.invalidate();
    assert_eq!(current, 1);
    assert_eq!(
        ledger.validate("e7").unwrap_err(),
        RefError::Stale { element_ref: "e7".to_string(), snapshot_generation: 0, current_generation: 1 }
    );
}
