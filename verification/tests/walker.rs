use wardian_state::snapshot::{RefIdentity, MAX_SNAPSHOT_ELEMENTS, MAX_SNAPSHOT_FIELD_CHARS};
use wardian_state::walker::{action_expression, identity_js, snapshot_expression, REF_ATTRIBUTE};

#[test]
fn the_action_guard_pins_the_generation_and_the_expected_identity() {
    let expected = RefIdentity { role: "button".to_string(), name: "Go".to_string() };
    let script = action_expression("e2", 7, &expected, "node.click();");
    assert!(
        script.contains(r#"[data-wardian-ref=\"e2\"][data-wardian-snapshot=\"7\"]"#) || script.contains("data-wardian-snapshot"),
        "the selector must pin the snapshot generation: {script}"
    );
    assert!(script.contains(r#"[data-wardian-ref=\"e2\"][data-wardian-snapshot=\"7\"]"#));
    assert!(script.contains("\"button\""), "the expected role must be embedded");
    assert!(script.contains("\"Go\""), "the expected name must be embedded");
    assert!(script.contains("matches.length > 1"), "an ambiguous ref must be refused");
    assert!(script.contains("return 'changed'"), "a repurposed node must be refused");
    assert!(script.contains("node.click();"));
}

#[test]
fn the_guard_clamps_identity_the_same_way_the_ledger_recorded_it() {
    let script = identity_js();
    assert!(script.contains(&format!("const MAX_FIELD = {MAX_SNAPSHOT_FIELD_CHARS};")));
    assert!(script.contains("const clampField"));
    let guard = action_expression("e1", 1, &RefIdentity { role: "link".to_string(), name: "x".to_string() }, "node.click();");
    assert!(guard.contains("clampField(accessibleName(node))"));
    assert!(guard.contains("clampField(roleOf(node))"));
}

#[test]
fn the_action_guard_and_the_walker_derive_identity_the_same_way() {
    let walker = snapshot_expression(1, true);
    let guard = action_expression("e1", 1, &RefIdentity { role: "link".to_string(), name: "Home".to_string() }, "node.click();");
    assert!(walker.contains(&identity_js()));
    assert!(guard.contains(&identity_js()));
}

#[test]
fn the_injected_walker_carries_the_generation_and_caps_it_was_built_with() {
    let script = snapshot_expression(9, true);
    assert!(script.contains("const generation = 9;"));
    assert!(script.contains("const INTERACTIVE_ONLY = true;"));
    assert!(script.contains(&format!("const MAX = {MAX_SNAPSHOT_ELEMENTS};")));
    assert!(script.contains(REF_ATTRIBUTE));
    assert!(snapshot_expression(3, false).contains("const INTERACTIVE_ONLY = false;"));
}

#[test]
fn the_walker_reports_checked_only_for_checkable_roles() {
    let script = snapshot_expression(1, true);
    assert!(
        script.contains("role === 'checkbox' || role === 'radio'"),
        "a text input also has a boolean `checked`, so the walker must gate on role"
    );
    assert!(!script.contains("typeof element.checked === 'boolean'"));
}
