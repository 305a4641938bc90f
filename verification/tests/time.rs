use wardian_state::time::{rfc3339_millis, rfc3339_not_after};

#[test]
fn rfc3339_times_read_as_epoch_milliseconds() {
    assert_eq!(rfc3339_millis("1970-01-01T00:00:01.500Z"), Some(1_500));
    assert_eq!(rfc3339_millis("1970-01-01T01:00:00+01:00"), Some(0));
    assert_eq!(rfc3339_millis("1969-12-31T23:59:59.250Z"), Some(-750));
    assert_eq!(rfc3339_millis("yesterday"), None);
}

#[test]
fn comparing_times_reports_which_side_does_not_parse() {
    assert_eq!(rfc3339_not_after("2026-01-01T00:00:00Z", "2026-01-01T00:00:00.000000001Z"), Ok(true));
    assert_eq!(rfc3339_not_after("2026-01-01T00:00:00Z", "2026-01-01T00:00:00Z"), Ok(true));
    assert_eq!(rfc3339_not_after("2026-01-01T01:00:00+02:00", "2026-01-01T00:00:00Z"), Ok(true));
    assert_eq!(rfc3339_not_after("2026-01-01T00:00:01Z", "2026-01-01T00:00:00Z"), Ok(false));
    assert_eq!(rfc3339_not_after("bad", "2026-01-01T00:00:00Z"), Err(true));
    assert_eq!(rfc3339_not_after("2026-01-01T00:00:00Z", "bad"), Err(false));
}
