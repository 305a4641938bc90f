use wardian_state::network::{
    NetworkEvent, NetworkLedger, ResponseInfo, MAX_NETWORK_HEADERS, MAX_NETWORK_HEADER_CHARS, MAX_NETWORK_URL_CHARS,
    NETWORK_BUFFER,
};

fn sent(request_id: &str, url: &str, method: &str) -> NetworkEvent {
    NetworkEvent::RequestWillBeSent {
        request_id: request_id.to_string(),
        url: Some(url.to_string()),
        method: Some(method.to_string()),
        resource_type: Some("XHR".to_string()),
        headers: vec![("Accept".to_string(), "application/json".to_string())],
        timestamp_us: Some(100_000_000),
        redirect_response: None,
    }
}

fn response(status: Option<u64>) -> ResponseInfo {
    ResponseInfo { status, mime_type: None, from_disk_cache: false, headers: vec![] }
}

fn failed(request_id: &str, error_text: Option<&str>, blocked: Option<&str>, canceled: bool) -> NetworkEvent {
    NetworkEvent::LoadingFailed {
        request_id: request_id.to_string(),
        blocked_reason: blocked.map(str::to_string),
        error_text: error_text.map(str::to_string),
        canceled,
        timestamp_us: None,
    }
}

#[test]
fn a_request_becomes_a_record_with_its_type_lowercased() {
    let mut ledger = NetworkLedger::default();
    ledger.apply(sent("1", "https://example.com/api", "POST"));
    let entries = ledger.entries();
    assert_eq!(entries.len(), 1);
    assert_eq!(entries[0].method, "POST");
    assert_eq!(entries[0].resource_type, "xhr");
    assert_eq!(entries[0].status, None);
    assert_eq!(ledger.detail("1").expect("record").request_header("accept"), Some("application/json"));
}

#[test]
fn a_response_and_completion_fill_in_the_status_size_and_duration() {
    let mut ledger = NetworkLedger::default();
    ledger.apply(sent("1", "https://a/", "GET"));
    ledger.apply(NetworkEvent::ResponseReceived {
        request_id: "1".to_string(),
        response: Some(ResponseInfo {
            status: Some(204),
            mime_type: Some("application/json".to_string()),
            from_disk_cache: false,
            headers: vec![("Content-Type".to_string(), "application/json".to_string())],
        }),
    });
    ledger.apply(NetworkEvent::LoadingFinished {
        request_id: "1".to_string(),
        encoded_data_length: Some(1234),
        timestamp_us: Some(100_250_000),
    });
    let entry = &ledger.entries()[0];
    assert_eq!(entry.status, Some(204));
    assert_eq!(entry.mime_type.as_deref(), Some("application/json"));
    assert_eq!(entry.encoded_data_length, Some(1234));
    assert_eq!(entry.duration_ms, Some(250));
    assert_eq!(ledger.detail("1").expect("record").response_header("content-type"), Some("application/json"));
}

#[test]
fn a_failure_records_its_reason_and_counts_as_one() {
    let mut ledger = NetworkLedger::default();
    ledger.apply(sent("1", "https://a/", "GET"));
    ledger.apply(failed("1", Some("net::ERR_CONNECTION_REFUSED"), None, false));
    assert_eq!(ledger.entries()[0].failure.as_deref(), Some("net::ERR_CONNECTION_REFUSED"));
    assert_eq!(ledger.failure_count(), 1);
}

#[test]
fn a_blocked_request_reports_the_block_rather_than_the_generic_error() {
    let mut ledger = NetworkLedger::default();
    ledger.apply(sent("1", "https://a/", "GET"));
    ledger.apply(failed("1", Some("net::ERR_BLOCKED_BY_CLIENT"), Some("csp"), false));
    assert_eq!(ledger.entries()[0].failure.as_deref(), Some("blocked: csp"));
}

#[test]
fn a_cancellation_with_no_error_text_still_says_something_useful() {
    let mut ledger = NetworkLedger::default();
    ledger.apply(sent("1", "https://a/", "GET"));
    ledger.apply(failed("1", None, None, true));
    assert_eq!(ledger.entries()[0].failure.as_deref(), Some("canceled"));
}

#[test]
fn an_error_status_counts_as_a_failure_even_though_it_loaded() {
    let mut ledger = NetworkLedger::default();
    ledger.apply(sent("1", "https://a/", "GET"));
    ledger.apply(NetworkEvent::ResponseReceived { request_id: "1".to_string(), response: Some(response(Some(500))) });
    assert_eq!(ledger.failure_count(), 1);
}

#[test]
fn a_redirect_keeps_each_hop_as_its_own_record() {
    let mut ledger = NetworkLedger::default();
    ledger.apply(sent("1", "https://example.com/old", "GET"));
    ledger.apply(NetworkEvent::RequestWillBeSent {
        request_id: "1".to_string(),
        url: Some("https://example.com/new".to_string()),
        method: Some("GET".to_string()),
        resource_type: Some("XHR".to_string()),
        headers: vec![],
        timestamp_us: Some(100_050_000),
        redirect_response: Some(ResponseInfo {
            status: Some(301),
            mime_type: Some("text/html".to_string()),
            from_disk_cache: false,
            headers: vec![],
        }),
    });
    ledger.apply(NetworkEvent::ResponseReceived { request_id: "1".to_string(), response: Some(response(Some(200))) });
    let entries = ledger.entries();
    assert_eq!(entries.len(), 2);
    assert_eq!(entries[0].url, "https://example.com/old");
    assert_eq!(entries[0].status, Some(301));
    assert_eq!(entries[0].duration_ms, Some(50));
    assert_eq!(entries[1].url, "https://example.com/new");
    assert_eq!(entries[1].status, Some(200));
}

#[test]
fn a_later_update_reaches_the_hop_in_progress_not_the_finished_one() {
    let mut ledger = NetworkLedger::default();
    ledger.apply(sent("1", "https://a/", "GET"));
    ledger.apply(NetworkEvent::RequestWillBeSent {
        request_id: "1".to_string(),
        url: Some("https://b/".to_string()),
        method: Some("GET".to_string()),
        resource_type: None,
        headers: vec![],
        timestamp_us: Some(100_000_000),
        redirect_response: Some(response(Some(302))),
    });
    ledger.apply(failed("1", Some("net::ERR_ABORTED"), None, false));
    let entries = ledger.entries();
    assert_eq!(entries[0].failure, None, "the completed hop is untouched");
    assert_eq!(entries[1].failure.as_deref(), Some("net::ERR_ABORTED"));
    assert_eq!(entries[1].resource_type, "other");
}

#[test]
fn a_cache_hit_is_recorded_from_either_signal() {
    let mut ledger = NetworkLedger::default();
    ledger.apply(sent("1", "https://a/", "GET"));
    ledger.apply(NetworkEvent::RequestServedFromCache { request_id: "1".to_string() });
    assert!(ledger.entries()[0].from_cache);

    let mut disk = NetworkLedger::default();
    disk.apply(sent("2", "https://b/", "GET"));
    disk.apply(NetworkEvent::ResponseReceived {
        request_id: "2".to_string(),
        response: Some(ResponseInfo { status: Some(200), mime_type: None, from_disk_cache: true, headers: vec![] }),
    });
    assert!(disk.entries()[0].from_cache);
}

#[test]
fn the_ledger_drops_its_oldest_records_rather_than_growing_without_bound() {
    let mut ledger = NetworkLedger::default();
    for index in 0..NETWORK_BUFFER + 10 {
        ledger.apply(sent(&index.to_string(), "https://a/", "GET"));
    }
    let entries = ledger.entries();
    assert_eq!(entries.len(), NETWORK_BUFFER);
    assert_eq!(entries[0].request_id, "10");
}

#[test]
fn an_enormous_url_is_cut_and_says_it_was_cut() {
    let mut ledger = NetworkLedger::default();
    let url = format!("https://example.com/{}", "a".repeat(MAX_NETWORK_URL_CHARS));
    ledger.apply(sent("1", &url, "GET"));
    let entry = &ledger.entries()[0];
    assert!(entry.url_truncated);
    assert_eq!(entry.url.chars().count(), MAX_NETWORK_URL_CHARS);
}

#[test]
fn headers_are_capped_in_count_and_in_value_length() {
    let mut headers: Vec<(String, String)> =
        (0..MAX_NETWORK_HEADERS + 5).map(|index| (format!("x-header-{index:03}"), "v".to_string())).collect();
    headers.push(("x-long".to_string(), "v".repeat(MAX_NETWORK_HEADER_CHARS + 10)));
    let mut ledger = NetworkLedger::default();
    ledger.apply(NetworkEvent::RequestWillBeSent {
        request_id: "1".to_string(),
        url: Some("https://a/".to_string()),
        method: Some("GET".to_string()),
        resource_type: None,
        headers,
        timestamp_us: None,
        redirect_response: None,
    });
    let record = ledger.detail("1").expect("record");
    assert_eq!(record.request_headers.len(), MAX_NETWORK_HEADERS);
    for (_, value) in &record.request_headers {
        assert!(value.chars().count() <= MAX_NETWORK_HEADER_CHARS + 1);
    }
}

#[test]
fn a_long_header_value_is_cut_and_marked() {
    let mut ledger = NetworkLedger::default();
    ledger.apply(NetworkEvent::RequestWillBeSent {
        request_id: "1".to_string(),
        url: None,
        method: None,
        resource_type: None,
        headers: vec![("X-Long".to_string(), "v".repeat(MAX_NETWORK_HEADER_CHARS + 10))],
        timestamp_us: None,
        redirect_response: None,
    });
    let record = ledger.detail("1").expect("record");
    let value = record.request_header("x-long").expect("header");
    assert_eq!(value.chars().count(), MAX_NETWORK_HEADER_CHARS + 1);
    assert!(value.ends_with('…'));
    assert_eq!(record.entry.method, "GET");
    assert_eq!(record.entry.url, "");
}

#[test]
fn an_event_for_an_unknown_request_is_ignored_rather_than_inventing_a_record() {
    let mut ledger = NetworkLedger::default();
    ledger.apply(NetworkEvent::LoadingFinished {
        request_id: "ghost".to_string(),
        encoded_data_length: Some(10),
        timestamp_us: None,
    });
    assert!(ledger.entries().is_empty());
}

#[test]
fn clearing_empties_the_ledger_and_its_failure_count() {
    let mut ledger = NetworkLedger::default();
    ledger.apply(sent("1", "https://a/", "GET"));
    ledger.apply(failed("1", Some("net::ERR_FAILED"), None, false));
    ledger.clear();
    assert!(ledger.entries().is_empty());
    assert_eq!(ledger.failure_count(), 0);
    assert!(ledger.detail("1").is_none());
}
