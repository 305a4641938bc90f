use wardian_state::browser::BrowserError;
use wardian_state::sessions::{lease_handover_event, BrowserSessionEvent, ConsoleEntry, ConsoleLog, ScreencastLeases, CONSOLE_BUFFER};

#[test]
fn the_first_attachment_drives_and_later_ones_mirror() {
    let mut leases = ScreencastLeases::new();
    let (first, start) = leases.attach_screencast("surface-a");
    assert!(start, "the first attachment starts the stream");
    assert!(first.can_drive);
    let (second, start_again) = leases.attach_screencast("surface-b");
    assert!(!start_again);
    assert!(!second.can_drive);
    assert_ne!(first.token, second.token);
    assert_eq!(leases.attachment_count(), 2);
    assert!(leases.token_may_drive(&first.token));
    assert_eq!(leases.require_drive(Some(&second.token)), Err(BrowserError::ReadOnlyPresentation));
    assert_eq!(leases.require_drive(None), Ok(()));
}

#[test]
fn releasing_the_driver_hands_the_lease_on() {
    let mut leases = ScreencastLeases::new();
    let (first, _) = leases.attach_screencast("surface-a");
    let (second, _) = leases.attach_screencast("surface-b");
    assert_eq!(leases.release(&first.token), (false, Some("surface-b".to_string())));
    assert!(leases.token_may_drive(&second.token));
    assert!(!leases.token_may_drive(&first.token));
    assert_eq!(leases.release(&second.token), (true, None), "the last release stops the stream");
    assert_eq!(leases.attachment_count(), 0);
}

#[test]
fn the_lease_moves_to_the_remaining_presentation_when_the_driver_leaves() {
    let mut leases = ScreencastLeases::new();
    let (driver, _) = leases.attach_screencast("pane-a");
    let (mirror, _) = leases.attach_screencast("pane-b");
    assert!(driver.can_drive);
    assert!(!mirror.can_drive);
    let (now_empty, handed_to) = leases.release(&driver.token);
    assert!(!now_empty);
    assert!(leases.token_may_drive(&mirror.token), "the mirror inherits the lease once the driver leaves");
    assert_eq!(handed_to, Some("pane-b".to_string()), "the handover names the new driver");
    let announced: Option<BrowserSessionEvent<()>> = lease_handover_event("b1", handed_to);
    assert_eq!(
        announced,
        Some(BrowserSessionEvent::Lease { browser_id: "b1".to_string(), presentation_id: Some("pane-b".to_string()) }),
        "the handover is announced"
    );
    let (_, handed_to) = leases.release(&mirror.token);
    assert_eq!(handed_to, None);
    assert_eq!(lease_handover_event::<()>("b1", handed_to), None);
}

#[test]
fn re_attaching_the_same_presentation_supersedes_the_older_attachment() {
    let mut leases = ScreencastLeases::new();
    let (first, start) = leases.attach_screencast("pane-a");
    assert!(start);
    let (second, start_again) = leases.attach_screencast("pane-a");
    assert!(!start_again, "the stream is already running");
    assert_eq!(leases.attachment_count(), 1, "one presentation streams once");
    assert!(second.can_drive, "a replacement attachment must inherit the lease it replaced");
    assert!(!leases.token_may_drive(&first.token));

    assert_eq!(leases.release(&first.token), (false, None), "a stale detach changes nothing");
    assert_eq!(leases.attachment_count(), 1, "the newer attachment must survive a stale cleanup");
    assert!(leases.token_may_drive(&second.token), "the lease must stay with the surviving attachment");

    assert_eq!(leases.release(&second.token), (true, None));
}

#[test]
fn a_re_attaching_mirror_stays_a_mirror() {
    let mut leases = ScreencastLeases::new();
    let (driver, _) = leases.attach_screencast("pane-a");
    let (_, _) = leases.attach_screencast("pane-b");
    let (again, _) = leases.attach_screencast("pane-b");
    assert_eq!(leases.attachment_count(), 2);
    assert!(!again.can_drive);
    assert!(leases.token_may_drive(&driver.token));
}

fn entry(level: &str, text: &str) -> ConsoleEntry {
    ConsoleEntry { level: level.to_string(), text: text.to_string() }
}

#[test]
fn the_console_keeps_the_newest_entries_and_counts_every_error() {
    let mut log = ConsoleLog::new();
    log.record(entry("error", "first"));
    for n in 0..CONSOLE_BUFFER {
        log.record(entry("log", &format!("line {n}")));
    }
    assert_eq!(log.entries().len(), CONSOLE_BUFFER);
    assert_eq!(log.entries()[0].text, "line 0");
    assert_eq!(log.error_count(), 1, "a dropped error still counts");
    log.clear();
    assert!(log.entries().is_empty());
    assert_eq!(log.error_count(), 0);
}
