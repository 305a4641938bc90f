use wardian_state::delivery::{
    bracketed_paste_bytes, plan_terminal_payload, BracketedPasteProfile, DeliveryAction, DeliveryEvent,
    DeliveryProfile, DeliveryStage, DeliveryTransaction, PayloadKind, TerminalDeliveryError,
};

fn codex_profile() -> DeliveryProfile {
    DeliveryProfile {
        bracketed_paste: BracketedPasteProfile { enabled: true, min_bytes: 1 },
        submit_key: "\r".to_string(),
        submit_delay_ms: 120,
    }
}

fn antigravity_profile() -> DeliveryProfile {
    DeliveryProfile {
        bracketed_paste: BracketedPasteProfile { enabled: false, min_bytes: 1 },
        submit_key: "\r".to_string(),
        submit_delay_ms: 120,
    }
}

#[test]
fn bracketed_paste_wraps_payload() {
    let bytes = bracketed_paste_bytes("alpha\nbeta");
    assert_eq!(bytes, b"\x1b[200~alpha\nbeta\x1b[201~".to_vec());
}

#[test]
fn plan_uses_bracketed_paste_for_short_codex_input() {
    let profile = codex_profile();
    let plan = plan_terminal_payload(&profile, "hello");
    assert_eq!(plan.payload_kind, PayloadKind::BracketedPaste);
    assert_eq!(plan.payload_bytes, b"\x1b[200~hello\x1b[201~".to_vec());
    assert_eq!(plan.submit_key, b"\r".to_vec());
    assert_eq!(plan.submit_delay_ms, profile.submit_delay_ms);
}

#[test]
fn plan_keeps_empty_prompt_empty_when_bracketed_paste_threshold_is_zero() {
    let mut profile = codex_profile();
    profile.bracketed_paste.min_bytes = 0;
    let plan = plan_terminal_payload(&profile, "");
    assert_eq!(plan.payload_kind, PayloadKind::Literal);
    assert!(plan.payload_bytes.is_empty());
}

#[test]
fn plan_uses_bracketed_paste_for_multiline_when_enabled() {
    let profile = codex_profile();
    let plan = plan_terminal_payload(&profile, "hello\nworld");
    assert_eq!(plan.payload_kind, PayloadKind::BracketedPaste);
    assert_eq!(plan.payload_bytes, b"\x1b[200~hello\nworld\x1b[201~".to_vec());
}

#[test]
fn plan_uses_bracketed_paste_for_large_payload_when_enabled() {
    let profile = codex_profile();
    let prompt = "x".repeat(profile.bracketed_paste.min_bytes);
    let plan = plan_terminal_payload(&profile, &prompt);
    assert_eq!(plan.payload_kind, PayloadKind::BracketedPaste);
}

#[test]
fn plan_uses_literal_when_provider_disables_bracketed_paste() {
    let profile = antigravity_profile();
    let plan = plan_terminal_payload(&profile, "hello\nworld");
    assert_eq!(plan.payload_kind, PayloadKind::Literal);
    assert_eq!(plan.payload_bytes, b"hello\nworld".to_vec());
}

#[test]
fn a_short_single_line_prompt_below_the_threshold_is_literal() {
    let mut profile = codex_profile();
    profile.bracketed_paste.min_bytes = 100;
    let plan = plan_terminal_payload(&profile, "hello");
    assert_eq!(plan.payload_kind, PayloadKind::Literal);
    assert_eq!(plan.payload_bytes, b"hello".to_vec());
}

#[test]
fn a_transaction_sends_payload_waits_and_then_submit_key() {
    let profile = antigravity_profile();
    let mut tx = DeliveryTransaction::new(&profile, "hello");
    assert_eq!(tx.current_stage(), DeliveryStage::Planned);
    assert_eq!(tx.step(DeliveryEvent::Start), DeliveryAction::SendBytes(b"hello".to_vec()));
    assert_eq!(tx.step(DeliveryEvent::BytesSent(Ok(()))), DeliveryAction::RunPayloadHook);
    assert_eq!(tx.step(DeliveryEvent::HookFinished(Ok(()))), DeliveryAction::Sleep(120));
    assert_eq!(tx.step(DeliveryEvent::DelayElapsed), DeliveryAction::RunBeforeSubmitHook);
    assert_eq!(tx.step(DeliveryEvent::HookFinished(Ok(()))), DeliveryAction::SendBytes(b"\r".to_vec()));
    match tx.step(DeliveryEvent::BytesSent(Ok(()))) {
        DeliveryAction::Finish(Ok(outcome)) => {
            assert_eq!(outcome.delivery_state, "submit_sent_unconfirmed");
            assert_eq!(outcome.delivery_phase, "submit_key_sent");
            assert_eq!(outcome.observed_state.as_deref(), Some("bytes_sent"));
            assert_eq!(outcome.reason, None);
        }
        other => panic!("unexpected {other:?}"),
    }
    assert_eq!(tx.current_stage(), DeliveryStage::Finished);
}

#[test]
fn an_empty_prompt_finishes_without_sending() {
    let mut tx = DeliveryTransaction::new(&codex_profile(), "");
    match tx.step(DeliveryEvent::Start) {
        DeliveryAction::Finish(Ok(outcome)) => {
            assert_eq!(outcome.delivery_state, "empty");
            assert_eq!(outcome.reason.as_deref(), Some("prompt normalized to empty"));
        }
        other => panic!("unexpected {other:?}"),
    }
}

#[test]
fn a_failed_submit_key_is_unsafe_to_retry() {
    let mut tx = DeliveryTransaction::new(&codex_profile(), "hi");
    tx.step(DeliveryEvent::Start);
    tx.step(DeliveryEvent::BytesSent(Ok(())));
    tx.step(DeliveryEvent::HookFinished(Ok(())));
    tx.step(DeliveryEvent::DelayElapsed);
    tx.step(DeliveryEvent::HookFinished(Ok(())));
    match tx.step(DeliveryEvent::BytesSent(Err("closed".to_string()))) {
        DeliveryAction::Finish(Err(error)) => {
            assert_eq!(error.phase, "payload_sent_submit_failed");
            assert!(!error.retry_safe);
            assert_eq!(error.message_text(), "Failed to send prompt submit key after payload send: closed");
        }
        other => panic!("unexpected {other:?}"),
    }
}

#[test]
fn a_failing_payload_hook_stops_before_the_submit_key() {
    let mut tx = DeliveryTransaction::new(&codex_profile(), "hi");
    tx.step(DeliveryEvent::Start);
    tx.step(DeliveryEvent::BytesSent(Ok(())));
    let failure = TerminalDeliveryError::terminal_state_unknown("receipt", "could not persist".to_string());
    assert_eq!(
        tx.step(DeliveryEvent::HookFinished(Err(failure.clone()))),
        DeliveryAction::Finish(Err(failure))
    );
    assert_eq!(tx.current_stage(), DeliveryStage::Finished);
}
