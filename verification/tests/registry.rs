use wardian_state::browser::BrowserError;
use wardian_state::registry::{PendingSurfaceOpens, SessionEntry, SessionRegistry};

fn open(registry: &mut SessionRegistry, id: &str, owner: Option<&str>) -> u32 {
    let short_ref = registry.allocate_short_ref();
    registry.register(SessionEntry {
        browser_id: id.to_string(),
        short_ref,
        owner_agent_id: owner.map(|o| o.to_string()),
    });
    short_ref
}

#[test]
fn short_refs_and_id_prefixes_both_resolve() {
    let mut registry = SessionRegistry::new();
    open(&mut registry, "4f1c9a7e-0000-4000-8000-000000000001", None);
    open(&mut registry, "9b2d6c1f-0000-4000-8000-000000000002", None);
    assert_eq!(registry.resolve("browser:1"), Ok("4f1c9a7e-0000-4000-8000-000000000001".to_string()));
    assert_eq!(
        registry.resolve("9b2d6c1f-0000-4000-8000-000000000002"),
        Ok("9b2d6c1f-0000-4000-8000-000000000002".to_string())
    );
    assert_eq!(registry.resolve("9b2d6c1f"), Ok("9b2d6c1f-0000-4000-8000-000000000002".to_string()));
    let listed = registry.ordered();
    assert_eq!(listed.len(), 2);
    assert_eq!(listed[0].short_ref, 1);
    assert_eq!(listed[1].short_ref, 2);
}

#[test]
fn targets_are_trimmed_and_unknown_or_shared_prefixes_are_refused() {
    let mut registry = SessionRegistry::new();
    open(&mut registry, "abc-1", None);
    open(&mut registry, "abc-2", None);
    assert_eq!(registry.resolve("  browser:2 "), Ok("abc-2".to_string()));
    assert_eq!(registry.resolve("   "), Err(BrowserError::NotFound { target: "an empty target".to_string() }));
    assert_eq!(registry.resolve("browser:9"), Err(BrowserError::NotFound { target: "browser:9".to_string() }));
    assert_eq!(registry.resolve("zzz"), Err(BrowserError::NotFound { target: "zzz".to_string() }));
    assert_eq!(
        registry.resolve("abc"),
        Err(BrowserError::Ambiguous {
            target: "abc".to_string(),
            matches: vec!["browser:1".to_string(), "browser:2".to_string()],
        })
    );
}

#[test]
fn a_closed_session_is_not_found_again() {
    let mut registry = SessionRegistry::new();
    open(&mut registry, "abc-1", None);
    let taken = registry.take("abc-1").expect("registered");
    assert_eq!(taken.short_ref, 1);
    assert_eq!(registry.take("abc-1"), None);
    assert!(matches!(registry.resolve("abc-1"), Err(BrowserError::NotFound { .. })));
    assert!(matches!(registry.resolve("browser:1"), Err(BrowserError::NotFound { .. })));
}

#[test]
fn an_agent_that_stops_takes_only_its_own_sessions() {
    let mut registry = SessionRegistry::new();
    open(&mut registry, "a", Some("agent-1"));
    open(&mut registry, "b", Some("agent-2"));
    open(&mut registry, "c", Some("agent-1"));
    open(&mut registry, "d", None);
    let closed: Vec<String> = registry.take_owned_by("agent-1").into_iter().map(|e| e.browser_id).collect();
    assert_eq!(closed, vec!["a".to_string(), "c".to_string()]);
    let left: Vec<String> = registry.ordered().into_iter().map(|e| e.browser_id).collect();
    assert_eq!(left, vec!["b".to_string(), "d".to_string()]);
}

#[test]
fn a_surface_open_stays_outstanding_until_it_is_acknowledged() {
    let mut registry = SessionRegistry::new();
    open(&mut registry, "abc-1", None);
    let mut pending = PendingSurfaceOpens::new();
    pending.queue("abc-1".to_string());
    let first = pending.pending(&registry);
    assert_eq!(first, vec!["abc-1".to_string()]);
    assert_eq!(pending.pending(&registry).len(), 1, "reading must not consume an open that was never acknowledged");
    pending.acknowledge("abc-1");
    assert!(pending.pending(&registry).is_empty(), "an acknowledged open must not be handed out again");
}

#[test]
fn queueing_the_same_open_twice_does_not_duplicate_it() {
    let mut registry = SessionRegistry::new();
    open(&mut registry, "abc-1", None);
    let mut pending = PendingSurfaceOpens::new();
    pending.queue("abc-1".to_string());
    pending.queue("abc-1".to_string());
    assert_eq!(pending.pending(&registry).len(), 1);
}

#[test]
fn a_queued_open_for_a_closed_session_is_dropped() {
    let mut registry = SessionRegistry::new();
    open(&mut registry, "abc-1", None);
    let mut pending = PendingSurfaceOpens::new();
    pending.queue("abc-1".to_string());
    registry.take("abc-1");
    assert!(pending.pending(&registry).is_empty());
}

#[test]
fn the_startup_queue_keeps_the_newest_opens_and_closes_once_read() {
    let mut registry = SessionRegistry::new();
    let mut pending = PendingSurfaceOpens::new();
    for n in 0..40 {
        let id = format!("s{n}");
        open(&mut registry, &id, None);
        pending.queue(id);
    }
    let listed = pending.pending(&registry);
    assert_eq!(listed.len(), 32);
    assert_eq!(listed[0], "s8");
    assert_eq!(listed[31], "s39");
    open(&mut registry, "late", None);
    pending.queue("late".to_string());
    assert_eq!(pending.pending(&registry).len(), 32);
}

#[test]
fn closing_a_session_twice_finds_it_once() {
    let mut registry = SessionRegistry::new();
    open(&mut registry, "abc-1", None);
    assert!(registry.take("abc-1").is_some());
    assert!(registry.take("abc-1").is_none());
    assert_eq!(registry.resolve("abc-1").unwrap_err().code(), "browser_not_found");
}

#[test]
fn closing_a_session_twice_takes_it_once() {
    let mut registry = SessionRegistry::new();
    open(&mut registry, "abc-1", Some("agent-a"));
    let (id, taken) = registry.close("abc-1").expect("first close");
    assert_eq!(id, "abc-1");
    assert_eq!(taken.expect("the first close takes the session").short_ref, 1);
    let again = registry.close("abc-1").expect_err("already gone");
    assert_eq!(again.code(), "browser_not_found");
    assert_eq!(registry.close("browser:1").expect_err("already gone").code(), "browser_not_found");
}
