use wardian_state::onboarding::{
    dismiss_onboarding_hint, load_onboarding_hints, normalize_onboarding_state, reset_onboarding_hints,
    set_contextual_tips_enabled, set_guided_tour_state, GuidedTourState, OnboardingHintsState,
};

const SAVED_CONTENT: &str = "{\"dismissed_hint_ids\":[],\"contextual_tips_enabled\":true,\"guided_tour_state\":\"unseen\"}";

#[test]
fn dismissed_hints_are_normalized() {
    let first = dismiss_onboarding_hint(None, " spawn-agent-first-run:v1 ").expect("dismiss hint");
    assert_eq!(first.dismissed_hint_ids, vec!["spawn-agent-first-run:v1".to_string()]);
    let saved = normalize_onboarding_state(OnboardingHintsState {
        dismissed_hint_ids: vec![
            "spawn-agent-first-run:v1".to_string(),
            " ".to_string(),
            "another-hint:v1".to_string(),
        ],
        contextual_tips_enabled: false,
        guided_tour_state: GuidedTourState::Unseen,
    });
    assert_eq!(
        saved.dismissed_hint_ids,
        vec!["another-hint:v1".to_string(), "spawn-agent-first-run:v1".to_string()]
    );
    assert_eq!(load_onboarding_hints(Some((saved.clone(), SAVED_CONTENT.to_string()))), saved);
}

#[test]
fn a_legacy_file_without_the_tour_field_counts_the_tour_as_skipped() {
    let parsed = OnboardingHintsState {
        dismissed_hint_ids: vec!["hint:v1".to_string()],
        contextual_tips_enabled: true,
        guided_tour_state: GuidedTourState::Unseen,
    };
    let loaded = load_onboarding_hints(Some((parsed, "{\"dismissed_hint_ids\":[\"hint:v1\"]}".to_string())));
    assert_eq!(loaded.dismissed_hint_ids, vec!["hint:v1"]);
    assert!(loaded.contextual_tips_enabled);
    assert_eq!(loaded.guided_tour_state, GuidedTourState::Skipped);
}

#[test]
fn nothing_stored_loads_the_defaults() {
    assert_eq!(load_onboarding_hints(None), OnboardingHintsState::default());
    assert!(OnboardingHintsState::default().contextual_tips_enabled);
    assert_eq!(OnboardingHintsState::default().guided_tour_state, GuidedTourState::Unseen);
}

#[test]
fn a_blank_hint_id_is_refused() {
    assert_eq!(dismiss_onboarding_hint(None, "   "), Err("Missing onboarding hint id".to_string()));
}

#[test]
fn disabling_tips_and_reset_keep_each_other() {
    let dismissed = dismiss_onboarding_hint(None, "hint:v1").expect("dismiss hint");
    let disabled = set_contextual_tips_enabled(Some(dismissed), false);
    assert_eq!(disabled.dismissed_hint_ids, vec!["hint:v1"]);
    assert!(!disabled.contextual_tips_enabled);
    let reset = reset_onboarding_hints(Some(disabled));
    assert!(reset.dismissed_hint_ids.is_empty());
    assert!(!reset.contextual_tips_enabled);
}

#[test]
fn the_tour_choice_is_kept() {
    let saved = set_guided_tour_state(None, GuidedTourState::InProgress);
    assert_eq!(saved.guided_tour_state, GuidedTourState::InProgress);
    let again = dismiss_onboarding_hint(Some(saved), "b").expect("dismiss");
    assert_eq!(again.guided_tour_state, GuidedTourState::InProgress);
}

#[test]
fn duplicate_dismissals_are_kept_once() {
    let first = dismiss_onboarding_hint(None, "b").expect("dismiss");
    let second = dismiss_onboarding_hint(Some(first), " b").expect("dismiss");
    let third = dismiss_onboarding_hint(Some(second), "a").expect("dismiss");
    assert_eq!(third.dismissed_hint_ids, vec!["a".to_string(), "b".to_string()]);
}
