use wardian_state::browser::{
    action_body, action_outcome, key_event_params, KeyEventParams, check_key_event, evaluation_outcome, EvaluationException, check_pointer_event, check_viewport, field_expression, history_entry,
    navigation_outcome, normalize_console_level, normalize_url, BrowserError, ElementAction, PageField,
};
use wardian_state::cdp::CdpError;
use wardian_state::snapshot::RefError;

#[test]
fn accepts_http_and_https_unchanged() {
    assert_eq!(normalize_url("https://example.com/a").unwrap(), "https://example.com/a");
    assert_eq!(normalize_url("  http://localhost:3000 ").unwrap(), "http://localhost:3000");
}

#[test]
fn promotes_a_bare_host_to_http() {
    assert_eq!(normalize_url("localhost:5173").unwrap(), "http://localhost:5173");
    assert_eq!(normalize_url("example.com").unwrap(), "http://example.com");
}

#[test]
fn refuses_schemes_that_could_reach_the_host_or_run_script() {
    for blocked in [
        "javascript:alert(1)",
        "JavaScript:alert(1)",
        "data:text/html,<h1>x",
        "file:///etc/passwd",
        "vbscript:msgbox",
    ] {
        let error = normalize_url(blocked).expect_err("blocked");
        assert_eq!(error.code(), "browser_invalid_request", "{blocked}");
    }
}

#[test]
fn refuses_an_unknown_scheme_rather_than_prefixing_it() {
    let error = normalize_url("ftp://example.com").expect_err("blocked");
    assert!(error.message().contains("cannot open"));
}

#[test]
fn allows_about_blank_as_the_one_non_http_target() {
    assert_eq!(normalize_url("about:blank").unwrap(), "about:blank");
}

#[test]
fn refuses_an_empty_url() {
    assert_eq!(normalize_url("   ").expect_err("empty").code(), "browser_invalid_request");
}

#[test]
fn page_fields_parse_from_their_cli_names() {
    assert_eq!(PageField::parse("url"), Some(PageField::Url));
    assert_eq!(PageField::parse("html"), Some(PageField::Html));
    assert_eq!(PageField::parse("screenshot"), None);
}

#[test]
fn console_levels_collapse_to_three_buckets() {
    assert_eq!(normalize_console_level("severe"), "error");
    assert_eq!(normalize_console_level("assert"), "error");
    assert_eq!(normalize_console_level("warn"), "warning");
    assert_eq!(normalize_console_level("debug"), "info");
}

#[test]
fn error_codes_are_stable_for_json_consumers() {
    assert_eq!(
        BrowserError::NotFound { target: "browser:9".to_string() }.code(),
        "browser_not_found"
    );
    assert_eq!(
        BrowserError::WaitTimeout { condition: "x".to_string(), timeout_ms: 1 }.code(),
        "browser_wait_timeout"
    );
    assert_eq!(
        BrowserError::Ref(RefError::NoSnapshot).code(),
        "snapshot_missing",
        "ref failures keep their own code rather than being flattened"
    );
}

#[test]
fn a_not_found_error_points_at_the_listing_command() {
    let message = BrowserError::NotFound { target: "browser:9".to_string() }.message();
    assert!(message.contains("wardian browser list"));
}

#[test]
fn a_scheme_check_ignores_letter_case_and_keeps_the_url_as_typed() {
    assert_eq!(normalize_url("HTTPS://Example.com/Path").unwrap(), "HTTPS://Example.com/Path");
    assert_eq!(normalize_url("About:Blank").unwrap(), "about:blank");
}

#[test]
fn an_action_writes_its_text_as_a_json_literal() {
    assert_eq!(action_body(&ElementAction::Click), "node.scrollIntoView({ block: 'center' }); node.click();");
    assert_eq!(
        action_body(&ElementAction::Select("a\"b\n".to_string())),
        "node.value = \"a\\\"b\\n\"; node.dispatchEvent(new Event('change', { bubbles: true }));"
    );
    let press = action_body(&ElementAction::Press("Enter".to_string()));
    assert!(press.contains("key: \"Enter\", bubbles: true"));
    assert!(press.contains("if (\"Enter\" === 'Enter' && node.form)"));
}

#[test]
fn an_action_outcome_maps_to_its_ref_error() {
    assert_eq!(action_outcome("e3", Some("ok")), Ok(()));
    assert_eq!(
        action_outcome("e3", Some("ambiguous")),
        Err(BrowserError::Ref(RefError::Ambiguous { element_ref: "e3".to_string() }))
    );
    assert_eq!(
        action_outcome("e3", Some("changed")),
        Err(BrowserError::Ref(RefError::Changed { element_ref: "e3".to_string() }))
    );
    assert_eq!(
        action_outcome("e3", Some("detached")),
        Err(BrowserError::Ref(RefError::Detached { element_ref: "e3".to_string() }))
    );
    assert_eq!(action_outcome("e3", None), Err(BrowserError::Ref(RefError::Detached { element_ref: "e3".to_string() })));
}

#[test]
fn get_reads_the_page_or_the_first_matching_element() {
    assert_eq!(field_expression(PageField::Url, Some("#x")), "window.location.href");
    assert_eq!(field_expression(PageField::Text, None), "document.body ? document.body.innerText : ''");
    assert_eq!(
        field_expression(PageField::Html, Some("#main")),
        "(() => { const node = document.querySelector(\"#main\"); if (!node) throw new Error('no element matches ' + \"#main\"); return node.outerHTML; })()"
    );
}

#[test]
fn a_navigation_error_text_is_a_protocol_failure() {
    assert_eq!(navigation_outcome(None), Ok(()));
    assert_eq!(
        navigation_outcome(Some("net::ERR_NAME_NOT_RESOLVED".to_string())),
        Err(BrowserError::Cdp(CdpError::Protocol {
            method: "Page.navigate".to_string(),
            code: 0,
            message: "net::ERR_NAME_NOT_RESOLVED".to_string(),
        }))
    );
}

#[test]
fn history_moves_stay_within_the_session() {
    let ids = [Some(10), Some(11), None];
    assert_eq!(history_entry(1, -1, &ids), Ok(10));
    assert_eq!(history_entry(0, 1, &ids), Ok(11));
    assert_eq!(
        history_entry(0, -1, &ids),
        Err(BrowserError::Invalid { detail: "there is no earlier page in this session's history".to_string() })
    );
    assert_eq!(
        history_entry(2, 1, &ids),
        Err(BrowserError::Invalid { detail: "there is no later page in this session's history".to_string() })
    );
    assert_eq!(
        history_entry(1, 1, &ids),
        Err(BrowserError::Invalid { detail: "the browser returned a history entry without an id".to_string() })
    );
}

#[test]
fn only_forwarded_input_events_and_positive_viewports_are_accepted() {
    assert_eq!(check_pointer_event("mouseMoved"), Ok(()));
    assert_eq!(
        check_pointer_event("touchStart"),
        Err(BrowserError::Invalid { detail: "touchStart is not a pointer event this surface forwards".to_string() })
    );
    assert_eq!(check_key_event("rawKeyDown"), Ok(()));
    assert_eq!(
        check_key_event("keyPress"),
        Err(BrowserError::Invalid { detail: "keyPress is not a key event this surface forwards".to_string() })
    );
    assert_eq!(check_viewport(1280, 800), Ok(()));
    assert_eq!(
        check_viewport(0, 800),
        Err(BrowserError::Invalid { detail: "viewport width and height must both be greater than zero".to_string() })
    );
}

#[test]
fn an_evaluation_exception_reports_its_best_description() {
    let thrown = |description: Option<&str>, text: Option<&str>| {
        Some(EvaluationException { description: description.map(str::to_string), text: text.map(str::to_string) })
    };
    let message = |r: Result<i32, BrowserError>| match r {
        Err(BrowserError::Cdp(CdpError::Protocol { message, .. })) => message,
        other => panic!("unexpected {other:?}"),
    };
    assert_eq!(message(evaluation_outcome(thrown(Some("TypeError: x"), Some("Uncaught")), Some(1), 0)), "TypeError: x");
    assert_eq!(message(evaluation_outcome(thrown(None, Some("Uncaught")), Some(1), 0)), "Uncaught");
    assert_eq!(message(evaluation_outcome(thrown(None, None), Some(1), 0)), "evaluation failed");
    assert_eq!(evaluation_outcome(None, Some(7), 0), Ok(7));
    assert_eq!(evaluation_outcome(None, None, 0), Ok(0));
}

#[test]
fn a_forwarded_key_event_carries_its_identity_and_text() {
    assert_eq!(
        key_event_params("keyDown", "a", "KeyA", Some("a"), 0),
        Ok(KeyEventParams {
            event_type: "keyDown".to_string(),
            key: "a".to_string(),
            code: "KeyA".to_string(),
            modifiers: 0,
            text: Some("a".to_string()),
            windows_virtual_key_code: Some(65),
        })
    );
    assert_eq!(key_event_params("keyUp", "Shift", "ShiftLeft", None, 8).unwrap().text, None);
    assert_eq!(
        key_event_params("keyPress", "a", "KeyA", None, 0),
        Err(BrowserError::Invalid { detail: "keyPress is not a key event this surface forwards".to_string() })
    );
}

#[test]
fn the_editing_keys_a_surface_forwards_carry_their_virtual_key_codes() {
    let backspace = key_event_params("keyDown", "Backspace", "Backspace", None, 0).unwrap();
    assert_eq!(backspace.windows_virtual_key_code, Some(8));
    assert_eq!(backspace.text, None);
    assert_eq!(key_event_params("keyUp", "Backspace", "Backspace", None, 0).unwrap().windows_virtual_key_code, Some(8));
    assert_eq!(key_event_params("keyDown", "b", "KeyB", Some("b"), 0).unwrap().windows_virtual_key_code, Some(66));
    assert_eq!(key_event_params("keyDown", "Delete", "Delete", None, 0).unwrap().windows_virtual_key_code, Some(46));
}

#[test]
fn normalizing_a_normalized_address_keeps_it() {
    for input in ["example.com", "  HTTPS://Example.com/a ", "about:BLANK", "localhost:3000/x"] {
        let first = normalize_url(input).unwrap();
        assert_eq!(normalize_url(&first).unwrap(), first);
    }
}
