use wardian_state::browser::BrowserError;
use wardian_state::page::{
    console_entry_from, wait_predicate, wait_timeout, ConsoleArg, ConsoleEvent, FrameRef, LoadState, PageEffect, PageEvent,
    PageState, ProtocolEventFields, WaitCondition,
};
use wardian_state::sessions::{BrowserSessionEvent, ConsoleEntry};
use wardian_state::snapshot::SnapshotElement;

fn arg(value: &str) -> ConsoleArg {
    ConsoleArg { value_text: Some(value.to_string()), value_json: None, description: None }
}

fn entry(level: &str, text: &str) -> ConsoleEntry {
    ConsoleEntry { level: level.to_string(), text: text.to_string() }
}

fn button(index: usize) -> SnapshotElement {
    SnapshotElement {
        element_ref: format!("e{index}"),
        role: "button".to_string(),
        name: format!("Button {index}"),
        value: String::new(),
        enabled: true,
        checked: None,
    }
}

#[test]
fn wait_conditions_compile_to_javascript_that_quotes_their_input() {
    let predicate = WaitCondition::Selector("#a[data-x='1']".to_string()).predicate().expect("predicate");
    assert!(predicate.contains(r##"document.querySelector("#a[data-x='1']")"##));
    let text = WaitCondition::Text("say \"hi\"".to_string()).predicate().expect("predicate");
    assert!(text.contains(r#"\"hi\""#), "quotes must be escaped: {text}");
}

#[test]
fn waiting_for_the_failed_load_state_has_no_predicate() {
    assert_eq!(WaitCondition::LoadState(LoadState::Failed).predicate(), None);
}

#[test]
fn wait_conditions_describe_themselves_for_the_timeout_message() {
    assert_eq!(WaitCondition::LoadState(LoadState::Complete).describe(), "load state complete");
    assert_eq!(WaitCondition::UrlContains("/dashboard".to_string()).describe(), r#"url containing "/dashboard""#);
}

#[test]
fn every_condition_compiles_to_its_predicate() {
    assert_eq!(
        WaitCondition::LoadState(LoadState::Complete).predicate().as_deref(),
        Some("document.readyState === 'complete'")
    );
    assert_eq!(
        WaitCondition::LoadState(LoadState::Loading).predicate().as_deref(),
        Some("document.readyState === 'loading'")
    );
    assert_eq!(
        WaitCondition::LoadState(LoadState::Idle).predicate().as_deref(),
        Some("document.readyState !== 'loading'")
    );
    assert_eq!(
        WaitCondition::UrlContains("/x".to_string()).predicate().as_deref(),
        Some(r#"window.location.href.includes("/x")"#)
    );
    assert_eq!(WaitCondition::Function("a && b".to_string()).predicate().as_deref(), Some("!!(a && b)"));
    assert_eq!(
        WaitCondition::Text("ok".to_string()).predicate().as_deref(),
        Some(r#"(document.body ? document.body.innerText : '').includes("ok")"#)
    );
    assert_eq!(WaitCondition::Function("go()".to_string()).describe(), r#"expression "go()""#);
    assert_eq!(WaitCondition::Selector("#a".to_string()).describe(), r##"selector "#a""##);
    assert_eq!(WaitCondition::Text("t".to_string()).describe(), r#"text "t""#);
}

#[test]
fn the_failed_load_state_is_reported_not_awaited() {
    match wait_predicate(&WaitCondition::LoadState(LoadState::Failed)) {
        Err(BrowserError::Invalid { detail }) => {
            assert_eq!(detail, "cannot wait for the failed load state; it is reported, not awaited")
        }
        other => panic!("unexpected {other:?}"),
    }
    assert_eq!(
        wait_predicate(&WaitCondition::Selector("#go".to_string())),
        Ok(r##"document.querySelector("#go") !== null"##.to_string())
    );
    let timeout = wait_timeout(&WaitCondition::LoadState(LoadState::Idle), 1500);
    assert_eq!(timeout.code(), "browser_wait_timeout");
    assert_eq!(timeout.message(), "timed out after 1500ms waiting for load state idle");
}

#[test]
fn reads_a_console_api_event_into_a_level_and_text() {
    let event = ConsoleEvent::ApiCall { call_type: Some("error".to_string()), args: Some(vec![arg("boom"), arg("again")]) };
    assert_eq!(console_entry_from(&event), ("error".to_string(), "boom again".to_string()));
}

#[test]
fn reads_a_log_entry_event_into_a_level_and_text() {
    let event = ConsoleEvent::LogEntry { level: Some("warning".to_string()), text: Some("deprecated".to_string()) };
    assert_eq!(console_entry_from(&event), ("warning".to_string(), "deprecated".to_string()));
}

#[test]
fn console_arguments_fall_back_to_json_then_description() {
    let args = vec![
        ConsoleArg { value_text: None, value_json: Some("42".to_string()), description: Some("ignored".to_string()) },
        ConsoleArg { value_text: None, value_json: None, description: Some("Object".to_string()) },
        ConsoleArg { value_text: None, value_json: None, description: None },
        arg("end"),
    ];
    let event = ConsoleEvent::ApiCall { call_type: None, args: Some(args) };
    assert_eq!(console_entry_from(&event), ("info".to_string(), "42 Object  end".to_string()));
    let bare = ConsoleEvent::ApiCall { call_type: Some("warn".to_string()), args: None };
    assert_eq!(console_entry_from(&bare), ("warning".to_string(), String::new()));
    let empty = ConsoleEvent::LogEntry { level: None, text: None };
    assert_eq!(console_entry_from(&empty), ("info".to_string(), String::new()));
}

#[test]
fn a_main_frame_commit_resets_the_page_and_retires_refs() {
    let mut page = PageState::new(LoadState::Idle);
    page.ledger.record_snapshot(&[button(1)]);
    assert_eq!(page.apply(PageEvent::Console(entry("error", "boom"))), PageEffect::PublishConsole(entry("error", "boom")));
    assert_eq!(page.console.error_count(), 1);
    assert_eq!(page.apply(PageEvent::LoadFired), PageEffect::RefreshTitleThenPublish);
    assert_eq!(page.load_state, LoadState::Complete);

    let effect = page.apply(PageEvent::FrameNavigated { is_main_frame: true, url: "https://b.test/".to_string() });
    assert_eq!(effect, PageEffect::PublishState);
    assert_eq!(page.url, "https://b.test/");
    assert_eq!(page.load_state, LoadState::Loading);
    assert_eq!(page.console.entries().len(), 0);
    assert_eq!(page.console.error_count(), 0);
    assert_eq!(page.ledger.validate("e1").expect_err("stale").code(), "snapshot_stale");
}

#[test]
fn a_subframe_navigation_keeps_refs_and_state() {
    let mut page = PageState::new(LoadState::Complete);
    page.finish_navigation(Some("https://a.test/".to_string()));
    page.ledger.record_snapshot(&[button(1)]);
    let effect = page.apply(PageEvent::FrameNavigated { is_main_frame: false, url: "https://ads.test/".to_string() });
    assert_eq!(effect, PageEffect::Nothing);
    assert_eq!(page.url, "https://a.test/");
    assert_eq!(page.load_state, LoadState::Complete);
    assert_eq!(page.ledger.validate("e1").expect("live").name, "Button 1");
    assert_eq!(page.apply(PageEvent::Other), PageEffect::Nothing);
}

#[test]
fn an_in_document_navigation_moves_the_url_and_retires_refs() {
    let mut page = PageState::new(LoadState::Complete);
    page.finish_navigation(Some("https://a.test/".to_string()));
    page.ledger.record_snapshot(&[button(2)]);
    assert_eq!(page.apply(PageEvent::NavigatedWithinDocument { url: String::new() }), PageEffect::PublishState);
    assert_eq!(page.url, "https://a.test/");
    assert_eq!(page.apply(PageEvent::NavigatedWithinDocument { url: "https://a.test/#b".to_string() }), PageEffect::PublishState);
    assert_eq!(page.url, "https://a.test/#b");
    assert_eq!(page.load_state, LoadState::Complete);
    assert_eq!(page.ledger.validate("e2").expect_err("stale").code(), "snapshot_stale");
}

#[test]
fn a_refused_navigation_marks_the_load_failed() {
    let mut page = PageState::new(LoadState::Idle);
    page.begin_navigation();
    assert_eq!(page.load_state, LoadState::Loading);
    page.finish_navigation(None);
    assert_eq!(page.load_state, LoadState::Failed);
    assert_eq!(LoadState::Failed.as_str(), "failed");
}

#[test]
fn the_console_keeps_only_its_newest_entries() {
    let mut page = PageState::new(LoadState::Idle);
    for index in 0..205 {
        page.apply(PageEvent::Console(entry("info", &format!("line {index}"))));
    }
    assert_eq!(page.console.entries().len(), 200);
    assert_eq!(page.console.entries()[0].text, "line 5");
}

#[test]
fn a_session_event_always_names_its_session() {
    let event: BrowserSessionEvent<()> = BrowserSessionEvent::Closed { browser_id: "abc".to_string(), reason: "closed".to_string() };
    assert_eq!(event.browser_id(), "abc");
    let frame: BrowserSessionEvent<()> =
        BrowserSessionEvent::Frame { browser_id: "def".to_string(), data: "AAA".to_string(), width: 100, height: 50 };
    assert_eq!(frame.browser_id(), "def");
}

fn fields() -> ProtocolEventFields {
    ProtocolEventFields { url: None, frame: None, entry_level: None, entry_text: None, call_type: None, args: None }
}

fn frame(has_parent: bool, url: Option<&str>) -> ProtocolEventFields {
    ProtocolEventFields { frame: Some(FrameRef { has_parent, url: url.map(str::to_string) }), ..fields() }
}

#[test]
fn protocol_events_read_as_the_page_events_they_are() {
    assert_eq!(
        PageEvent::from_protocol("Page.frameNavigated", frame(false, Some("https://b.test/"))),
        PageEvent::FrameNavigated { is_main_frame: true, url: "https://b.test/".to_string() }
    );
    assert_eq!(
        PageEvent::from_protocol("Page.frameNavigated", frame(true, Some("https://ads.test/"))),
        PageEvent::FrameNavigated { is_main_frame: false, url: "https://ads.test/".to_string() }
    );
    assert_eq!(
        PageEvent::from_protocol("Page.frameNavigated", fields()),
        PageEvent::FrameNavigated { is_main_frame: false, url: String::new() }
    );
    assert_eq!(
        PageEvent::from_protocol("Page.frameNavigated", frame(false, None)),
        PageEvent::FrameNavigated { is_main_frame: true, url: String::new() }
    );
    assert_eq!(
        PageEvent::from_protocol("Page.navigatedWithinDocument", ProtocolEventFields { url: Some("https://a.test/#b".to_string()), ..fields() }),
        PageEvent::NavigatedWithinDocument { url: "https://a.test/#b".to_string() }
    );
    assert_eq!(PageEvent::from_protocol("Page.navigatedWithinDocument", fields()), PageEvent::NavigatedWithinDocument { url: String::new() });
    assert_eq!(PageEvent::from_protocol("Page.loadEventFired", fields()), PageEvent::LoadFired);
    assert_eq!(PageEvent::from_protocol("Page.domContentEventFired", fields()), PageEvent::LoadFired);
    assert_eq!(
        PageEvent::from_protocol(
            "Log.entryAdded",
            ProtocolEventFields { entry_level: Some("warning".to_string()), entry_text: Some("careful".to_string()), ..fields() }
        ),
        PageEvent::Console(entry("warning", "careful"))
    );
    assert_eq!(
        PageEvent::from_protocol(
            "Runtime.consoleAPICalled",
            ProtocolEventFields { call_type: Some("error".to_string()), args: Some(vec![arg("a"), arg("b")]), ..fields() }
        ),
        PageEvent::Console(entry("error", "a b"))
    );
    assert_eq!(PageEvent::from_protocol("Network.requestWillBeSent", fields()), PageEvent::Other);
}

#[test]
fn an_iframe_commit_leaves_the_outer_page_and_its_refs_alone() {
    let mut page = PageState::new(LoadState::Complete);
    page.finish_navigation(Some("https://a.test/".to_string()));
    page.ledger.record_snapshot(&[button(1)]);
    let iframe = PageEvent::from_protocol("Page.frameNavigated", frame(true, Some("https://a.test/frame#route")));
    assert_eq!(page.apply(iframe), PageEffect::Nothing);
    assert_eq!(page.url, "https://a.test/");
    assert_eq!(page.load_state, LoadState::Complete);
    assert_eq!(page.ledger.validate("e1").expect("live").name, "Button 1");

    let main = PageEvent::from_protocol("Page.frameNavigated", frame(false, Some("https://b.test/")));
    assert_eq!(page.apply(main), PageEffect::PublishState);
    assert_eq!(page.url, "https://b.test/");
    assert_eq!(page.load_state, LoadState::Loading);
    assert_eq!(page.ledger.validate("e1").expect_err("stale").code(), "snapshot_stale");
}
