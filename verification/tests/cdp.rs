use serde_json::Value;
use wardian_state::cdp::{
    call_outcome, classify_frame, pump_step, required_str, CallLedger, CallWait, CdpError, CdpEvent, ErrorField, FrameFields, InboundFrame, PumpAction, PumpInput,
    DISCONNECTED_METHOD,
};

fn empty_object() -> Value {
    Value::Object(serde_json::Map::new())
}

/// Reads a frame's text the way the connection does before routing it.
fn frame(text: &str) -> Option<FrameFields<Value>> {
    let value: Value = serde_json::from_str(text).ok()?;
    let error = value.get("error").map(|error| match error {
        Value::Object(body) => ErrorField::Body {
            code: body.get("code").and_then(Value::as_i64).unwrap_or(0),
            message: body.get("message").and_then(Value::as_str).unwrap_or("").to_string(),
        },
        other => ErrorField::Unreadable(other.to_string()),
    });
    Some(FrameFields {
        id: value.get("id").and_then(Value::as_u64),
        error,
        result: value.get("result").cloned(),
        method: value.get("method").and_then(Value::as_str).map(str::to_string),
        session_id: value.get("sessionId").and_then(Value::as_str).map(str::to_string),
        params: value.get("params").cloned(),
    })
}

fn classify(text: &str) -> InboundFrame<Value> {
    classify_frame(frame(text), empty_object())
}

#[test]
fn classifies_a_successful_reply() {
    match classify(r#"{"id":7,"result":{"targetId":"t1"}}"#) {
        InboundFrame::Reply { id, result } => {
            assert_eq!(id, 7);
            assert_eq!(result.expect("ok")["targetId"], "t1");
        }
        _ => panic!("expected a reply"),
    }
}

#[test]
fn classifies_a_reply_with_no_result_body() {
    match classify(r#"{"id":8}"#) {
        InboundFrame::Reply { id, result } => {
            assert_eq!(id, 8);
            assert_eq!(result.expect("ok"), empty_object());
        }
        _ => panic!("expected a reply"),
    }
}

#[test]
fn classifies_a_protocol_error() {
    match classify(r#"{"id":9,"error":{"code":-32000,"message":"nope"}}"#) {
        InboundFrame::Reply { id, result } => {
            assert_eq!(id, 9);
            let (code, message) = result.expect_err("error");
            assert_eq!(code, -32000);
            assert_eq!(message, "nope");
        }
        _ => panic!("expected a reply"),
    }
}

#[test]
fn classifies_a_session_scoped_event() {
    match classify(r#"{"method":"Page.frameNavigated","sessionId":"s1","params":{"frame":{}}}"#) {
        InboundFrame::Event(event) => {
            assert_eq!(event.method, "Page.frameNavigated");
            assert_eq!(event.session_id.as_deref(), Some("s1"));
        }
        _ => panic!("expected an event"),
    }
}

#[test]
fn classifies_a_browser_scoped_event_without_a_session() {
    match classify(r#"{"method":"Target.targetCreated","params":{}}"#) {
        InboundFrame::Event(event) => {
            assert_eq!(event.session_id, None);
            assert_eq!(event.params, empty_object());
        }
        _ => panic!("expected an event"),
    }
}

#[test]
fn ignores_frames_that_are_neither_replies_nor_events() {
    assert!(matches!(classify("not json"), InboundFrame::Ignored));
    assert!(matches!(classify(r#"{"hello":1}"#), InboundFrame::Ignored));
}

#[test]
fn an_unreadable_error_body_is_reported_by_its_text() {
    match classify(r#"{"id":3,"error":"boom"}"#) {
        InboundFrame::Reply { id, result } => {
            assert_eq!(id, 3);
            assert_eq!(result, Err((0, "\"boom\"".to_string())));
        }
        _ => panic!("expected a reply"),
    }
}

#[test]
fn required_str_reports_the_missing_field_by_name() {
    let error = required_str("Target.createTarget", "targetId", None).expect_err("missing field");
    assert!(error.message().contains("missing targetId"));
    assert_eq!(required_str("Target.createTarget", "targetId", Some("t1".to_string())), Ok("t1".to_string()));
}

#[test]
fn a_protocol_error_names_the_failing_method() {
    let error = CdpError::Protocol {
        method: "Page.navigate".to_string(),
        code: -32000,
        message: "Cannot navigate to invalid URL".to_string(),
    };
    assert_eq!(error.message(), "Page.navigate failed (-32000): Cannot navigate to invalid URL");
}

#[test]
fn a_timeout_names_the_method_that_did_not_answer() {
    let error = CdpError::Timeout { method: "Page.navigate".to_string() };
    assert!(error.message().contains("Page.navigate"));
}

fn event(session: Option<&str>, method: &str) -> CdpEvent<u8> {
    CdpEvent { session_id: session.map(str::to_string), method: method.to_string(), params: 0 }
}

#[test]
fn the_event_pump_handles_only_its_own_page_and_reaps_on_disconnect() {
    assert_eq!(pump_step::<u8>("s1", PumpInput::Lagged), PumpAction::Resynchronize);
    assert_eq!(pump_step::<u8>("s1", PumpInput::Closed), PumpAction::Reap);
    assert_eq!(pump_step("s1", PumpInput::Event(event(None, DISCONNECTED_METHOD))), PumpAction::Reap);
    assert_eq!(pump_step("s1", PumpInput::Event(event(Some("s2"), "Page.frameNavigated"))), PumpAction::Skip);
    assert_eq!(pump_step("s1", PumpInput::Event(event(None, "Target.targetCreated"))), PumpAction::Skip);
    assert_eq!(
        pump_step("s1", PumpInput::Event(event(Some("s1"), "Page.frameNavigated"))),
        PumpAction::Handle(event(Some("s1"), "Page.frameNavigated"))
    );
}

#[test]
fn each_call_gets_a_fresh_id_and_its_reply_once() {
    let mut ledger = CallLedger::new();
    assert_eq!(ledger.begin(), Ok(1));
    assert_eq!(ledger.begin(), Ok(2));
    assert_eq!(ledger.begin(), Ok(3));
    assert!(ledger.settle(2));
    assert!(!ledger.settle(2), "a second reply finds nobody waiting");
    assert!(!ledger.settle(9));
    assert_eq!(ledger.close(), vec![1, 3]);
    assert_eq!(ledger.begin(), Err(CdpError::Disconnected));
    assert!(ledger.close().is_empty());
}

#[test]
fn a_finished_wait_becomes_the_calls_result() {
    assert_eq!(call_outcome("Page.reload", CallWait::Replied(5)), Ok(5));
    assert_eq!(
        call_outcome::<u8>("Page.reload", CallWait::Refused(-32000, "nope".to_string())),
        Err(CdpError::Protocol { method: "Page.reload".to_string(), code: -32000, message: "nope".to_string() })
    );
    assert_eq!(call_outcome::<u8>("Page.reload", CallWait::Dropped), Err(CdpError::Disconnected));
    assert_eq!(
        call_outcome::<u8>("Page.reload", CallWait::TimedOut),
        Err(CdpError::Timeout { method: "Page.reload".to_string() })
    );
}
