//! Opt-in accounting of the runtime's hot paths: per metric, how many calls,
//! units, and nanoseconds of wall and CPU time were spent since the last report.
use vstd::prelude::*;

use crate::text::{ascii_lower, ascii_lower_seq, chars_eq, chars_of, parse_unsigned, parse_unsigned_spec, trim_spec, trimmed_chars};

verus! {

/// How many metrics there are.
pub const METRIC_COUNT: usize = 25;

/// Seconds between reports when nothing else is configured.
pub const DEFAULT_REPORT_INTERVAL_SECS: u64 = 10;

#[derive(Clone, Copy, Debug, PartialEq, Eq, Structural)]
pub enum RuntimeMetric {
    PtyRead,
    PtyPostprocess,
    TerminalBrokerOutput,
    TerminalRegister,
    TerminalUpdate,
    TerminalViewport,
    TerminalSnapshot,
    TerminalReadEvents,
    TerminalAckEvents,
    ProviderLogRead,
    CodexWatcherPoll,
    PiWatcherPoll,
    ClaudeWatcherPoll,
    ClaudeHookPoll,
    AntigravityWatcherPoll,
    AntigravityLatestStep,
    AntigravityMessageScan,
    TelemetryIngestDiscover,
    TelemetryIngestPass,
    TelemetryFleetQuery,
    TelemetryMatrixQuery,
    InboxApprovalScan,
    InboxTerminalScan,
    AppMetrics,
    MetricsTick,
}

/// The name a metric is reported under.
pub open spec fn metric_name(m: RuntimeMetric) -> Seq<char> {
    match m {
            RuntimeMetric::PtyRead => "pty_read"@,
            RuntimeMetric::PtyPostprocess => "pty_postprocess"@,
            RuntimeMetric::TerminalBrokerOutput => "terminal_broker_output"@,
            RuntimeMetric::TerminalRegister => "terminal_register"@,
            RuntimeMetric::TerminalUpdate => "terminal_update"@,
            RuntimeMetric::TerminalViewport => "terminal_viewport"@,
            RuntimeMetric::TerminalSnapshot => "terminal_snapshot"@,
            RuntimeMetric::TerminalReadEvents => "terminal_read_events"@,
            RuntimeMetric::TerminalAckEvents => "terminal_ack_events"@,
            RuntimeMetric::ProviderLogRead => "provider_log_read"@,
            RuntimeMetric::CodexWatcherPoll => "codex_watcher_poll"@,
            RuntimeMetric::PiWatcherPoll => "pi_watcher_poll"@,
            RuntimeMetric::ClaudeWatcherPoll => "claude_watcher_poll"@,
            RuntimeMetric::ClaudeHookPoll => "claude_hook_poll"@,
            RuntimeMetric::AntigravityWatcherPoll => "antigravity_watcher_poll"@,
            RuntimeMetric::AntigravityLatestStep => "antigravity_latest_step"@,
            RuntimeMetric::AntigravityMessageScan => "antigravity_message_scan"@,
            RuntimeMetric::TelemetryIngestDiscover => "telemetry_ingest_discover"@,
            RuntimeMetric::TelemetryIngestPass => "telemetry_ingest_pass"@,
            RuntimeMetric::TelemetryFleetQuery => "telemetry_fleet_query"@,
            RuntimeMetric::TelemetryMatrixQuery => "telemetry_matrix_query"@,
            RuntimeMetric::InboxApprovalScan => "inbox_approval_scan"@,
            RuntimeMetric::InboxTerminalScan => "inbox_terminal_scan"@,
            RuntimeMetric::AppMetrics => "app_metrics"@,
            RuntimeMetric::MetricsTick => "metrics_tick"@,
    }
}

/// A metric's position among all metrics.
pub open spec fn metric_index(m: RuntimeMetric) -> int {
    match m {
            RuntimeMetric::PtyRead => 0,
            RuntimeMetric::PtyPostprocess => 1,
            RuntimeMetric::TerminalBrokerOutput => 2,
            RuntimeMetric::TerminalRegister => 3,
            RuntimeMetric::TerminalUpdate => 4,
            RuntimeMetric::TerminalViewport => 5,
            RuntimeMetric::TerminalSnapshot => 6,
            RuntimeMetric::TerminalReadEvents => 7,
            RuntimeMetric::TerminalAckEvents => 8,
            RuntimeMetric::ProviderLogRead => 9,
            RuntimeMetric::CodexWatcherPoll => 10,
            RuntimeMetric::PiWatcherPoll => 11,
            RuntimeMetric::ClaudeWatcherPoll => 12,
            RuntimeMetric::ClaudeHookPoll => 13,
            RuntimeMetric::AntigravityWatcherPoll => 14,
            RuntimeMetric::AntigravityLatestStep => 15,
            RuntimeMetric::AntigravityMessageScan => 16,
            RuntimeMetric::TelemetryIngestDiscover => 17,
            RuntimeMetric::TelemetryIngestPass => 18,
            RuntimeMetric::TelemetryFleetQuery => 19,
            RuntimeMetric::TelemetryMatrixQuery => 20,
            RuntimeMetric::InboxApprovalScan => 21,
            RuntimeMetric::InboxTerminalScan => 22,
            RuntimeMetric::AppMetrics => 23,
            RuntimeMetric::MetricsTick => 24,
    }
}

impl RuntimeMetric {
    /// The name the metric is reported under.
    pub fn name(self) -> (r: &'static str)
        ensures
            r@ == metric_name(self),
    {
        match self {
            RuntimeMetric::PtyRead => "pty_read",
            RuntimeMetric::PtyPostprocess => "pty_postprocess",
            RuntimeMetric::TerminalBrokerOutput => "terminal_broker_output",
            RuntimeMetric::TerminalRegister => "terminal_register",
            RuntimeMetric::TerminalUpdate => "terminal_update",
            RuntimeMetric::TerminalViewport => "terminal_viewport",
            RuntimeMetric::TerminalSnapshot => "terminal_snapshot",
            RuntimeMetric::TerminalReadEvents => "terminal_read_events",
            RuntimeMetric::TerminalAckEvents => "terminal_ack_events",
            RuntimeMetric::ProviderLogRead => "provider_log_read",
            RuntimeMetric::CodexWatcherPoll => "codex_watcher_poll",
            RuntimeMetric::PiWatcherPoll => "pi_watcher_poll",
            RuntimeMetric::ClaudeWatcherPoll => "claude_watcher_poll",
            RuntimeMetric::ClaudeHookPoll => "claude_hook_poll",
            RuntimeMetric::AntigravityWatcherPoll => "antigravity_watcher_poll",
            RuntimeMetric::AntigravityLatestStep => "antigravity_latest_step",
            RuntimeMetric::AntigravityMessageScan => "antigravity_message_scan",
            RuntimeMetric::TelemetryIngestDiscover => "telemetry_ingest_discover",
            RuntimeMetric::TelemetryIngestPass => "telemetry_ingest_pass",
            RuntimeMetric::TelemetryFleetQuery => "telemetry_fleet_query",
            RuntimeMetric::TelemetryMatrixQuery => "telemetry_matrix_query",
            RuntimeMetric::InboxApprovalScan => "inbox_approval_scan",
            RuntimeMetric::InboxTerminalScan => "inbox_terminal_scan",
            RuntimeMetric::AppMetrics => "app_metrics",
            RuntimeMetric::MetricsTick => "metrics_tick",
        }
    }

    /// Every metric, each once, in reporting order.
    pub fn all() -> (r: Vec<RuntimeMetric>)
        ensures
            r@.len() == METRIC_COUNT,
            forall|m: RuntimeMetric| #[trigger] r@[metric_index(m)] == m,
    {
        let mut out: Vec<RuntimeMetric> = Vec::new();
    out.push(RuntimeMetric::PtyRead);
    out.push(RuntimeMetric::PtyPostprocess);
    out.push(RuntimeMetric::TerminalBrokerOutput);
    out.push(RuntimeMetric::TerminalRegister);
    out.push(RuntimeMetric::TerminalUpdate);
    out.push(RuntimeMetric::TerminalViewport);
    out.push(RuntimeMetric::TerminalSnapshot);
    out.push(RuntimeMetric::TerminalReadEvents);
    out.push(RuntimeMetric::TerminalAckEvents);
    out.push(RuntimeMetric::ProviderLogRead);
    out.push(RuntimeMetric::CodexWatcherPoll);
    out.push(RuntimeMetric::PiWatcherPoll);
    out.push(RuntimeMetric::ClaudeWatcherPoll);
    out.push(RuntimeMetric::ClaudeHookPoll);
    out.push(RuntimeMetric::AntigravityWatcherPoll);
    out.push(RuntimeMetric::AntigravityLatestStep);
    out.push(RuntimeMetric::AntigravityMessageScan);
    out.push(RuntimeMetric::TelemetryIngestDiscover);
    out.push(RuntimeMetric::TelemetryIngestPass);
    out.push(RuntimeMetric::TelemetryFleetQuery);
    out.push(RuntimeMetric::TelemetryMatrixQuery);
    out.push(RuntimeMetric::InboxApprovalScan);
    out.push(RuntimeMetric::InboxTerminalScan);
    out.push(RuntimeMetric::AppMetrics);
    out.push(RuntimeMetric::MetricsTick);
        out
    }
}

/// A number that tells the metric names apart: the length, the last
/// character and the eighth character from the end.
pub open spec fn name_key(s: Seq<char>) -> int {
    s.len() * 1000000 + (s[s.len() - 1] as u32) * 1000 + (s[s.len() - 8] as u32)
}

spec fn key_of(m: RuntimeMetric) -> int {
    match m {
        RuntimeMetric::PtyRead => 8100112,
        RuntimeMetric::PtyPostprocess => 15115116,
        RuntimeMetric::TerminalBrokerOutput => 22116114,
        RuntimeMetric::TerminalRegister => 17114114,
        RuntimeMetric::TerminalUpdate => 15101108,
        RuntimeMetric::TerminalViewport => 17116118,
        RuntimeMetric::TerminalSnapshot => 17116115,
        RuntimeMetric::TerminalReadEvents => 20115100,
        RuntimeMetric::TerminalAckEvents => 19115107,
        RuntimeMetric::ProviderLogRead => 17100108,
        RuntimeMetric::CodexWatcherPoll => 18108104,
        RuntimeMetric::PiWatcherPoll => 15108104,
        RuntimeMetric::ClaudeWatcherPoll => 19108104,
        RuntimeMetric::ClaudeHookPoll => 16108111,
        RuntimeMetric::AntigravityWatcherPoll => 24108104,
        RuntimeMetric::AntigravityLatestStep => 23112101,
        RuntimeMetric::AntigravityMessageScan => 24110097,
        RuntimeMetric::TelemetryIngestDiscover => 25114100,
        RuntimeMetric::TelemetryIngestPass => 21115101,
        RuntimeMetric::TelemetryFleetQuery => 21121101,
        RuntimeMetric::TelemetryMatrixQuery => 22121105,
        RuntimeMetric::InboxApprovalScan => 19110118,
        RuntimeMetric::InboxTerminalScan => 19110110,
        RuntimeMetric::AppMetrics => 11115095,
        RuntimeMetric::MetricsTick => 12107105,
    }
}

spec fn metric_of_key(k: int) -> Option<RuntimeMetric> {
        if k == 8100112 { Some(RuntimeMetric::PtyRead) } else
        if k == 15115116 { Some(RuntimeMetric::PtyPostprocess) } else
        if k == 22116114 { Some(RuntimeMetric::TerminalBrokerOutput) } else
        if k == 17114114 { Some(RuntimeMetric::TerminalRegister) } else
        if k == 15101108 { Some(RuntimeMetric::TerminalUpdate) } else
        if k == 17116118 { Some(RuntimeMetric::TerminalViewport) } else
        if k == 17116115 { Some(RuntimeMetric::TerminalSnapshot) } else
        if k == 20115100 { Some(RuntimeMetric::TerminalReadEvents) } else
        if k == 19115107 { Some(RuntimeMetric::TerminalAckEvents) } else
        if k == 17100108 { Some(RuntimeMetric::ProviderLogRead) } else
        if k == 18108104 { Some(RuntimeMetric::CodexWatcherPoll) } else
        if k == 15108104 { Some(RuntimeMetric::PiWatcherPoll) } else
        if k == 19108104 { Some(RuntimeMetric::ClaudeWatcherPoll) } else
        if k == 16108111 { Some(RuntimeMetric::ClaudeHookPoll) } else
        if k == 24108104 { Some(RuntimeMetric::AntigravityWatcherPoll) } else
        if k == 23112101 { Some(RuntimeMetric::AntigravityLatestStep) } else
        if k == 24110097 { Some(RuntimeMetric::AntigravityMessageScan) } else
        if k == 25114100 { Some(RuntimeMetric::TelemetryIngestDiscover) } else
        if k == 21115101 { Some(RuntimeMetric::TelemetryIngestPass) } else
        if k == 21121101 { Some(RuntimeMetric::TelemetryFleetQuery) } else
        if k == 22121105 { Some(RuntimeMetric::TelemetryMatrixQuery) } else
        if k == 19110118 { Some(RuntimeMetric::InboxApprovalScan) } else
        if k == 19110110 { Some(RuntimeMetric::InboxTerminalScan) } else
        if k == 11115095 { Some(RuntimeMetric::AppMetrics) } else
        if k == 12107105 { Some(RuntimeMetric::MetricsTick) } else { None }
}

proof fn lemma_name_key(m: RuntimeMetric)
    ensures
        name_key(metric_name(m)) == key_of(m),
        metric_of_key(key_of(m)) == Some(m),
{
    match m {
        RuntimeMetric::PtyRead => { reveal_strlit("pty_read"); },
        RuntimeMetric::PtyPostprocess => { reveal_strlit("pty_postprocess"); },
        RuntimeMetric::TerminalBrokerOutput => { reveal_strlit("terminal_broker_output"); },
        RuntimeMetric::TerminalRegister => { reveal_strlit("terminal_register"); },
        RuntimeMetric::TerminalUpdate => { reveal_strlit("terminal_update"); },
        RuntimeMetric::TerminalViewport => { reveal_strlit("terminal_viewport"); },
        RuntimeMetric::TerminalSnapshot => { reveal_strlit("terminal_snapshot"); },
        RuntimeMetric::TerminalReadEvents => { reveal_strlit("terminal_read_events"); },
        RuntimeMetric::TerminalAckEvents => { reveal_strlit("terminal_ack_events"); },
        RuntimeMetric::ProviderLogRead => { reveal_strlit("provider_log_read"); },
        RuntimeMetric::CodexWatcherPoll => { reveal_strlit("codex_watcher_poll"); },
        RuntimeMetric::PiWatcherPoll => { reveal_strlit("pi_watcher_poll"); },
        RuntimeMetric::ClaudeWatcherPoll => { reveal_strlit("claude_watcher_poll"); },
        RuntimeMetric::ClaudeHookPoll => { reveal_strlit("claude_hook_poll"); },
        RuntimeMetric::AntigravityWatcherPoll => { reveal_strlit("antigravity_watcher_poll"); },
        RuntimeMetric::AntigravityLatestStep => { reveal_strlit("antigravity_latest_step"); },
        RuntimeMetric::AntigravityMessageScan => { reveal_strlit("antigravity_message_scan"); },
        RuntimeMetric::TelemetryIngestDiscover => { reveal_strlit("telemetry_ingest_discover"); },
        RuntimeMetric::TelemetryIngestPass => { reveal_strlit("telemetry_ingest_pass"); },
        RuntimeMetric::TelemetryFleetQuery => { reveal_strlit("telemetry_fleet_query"); },
        RuntimeMetric::TelemetryMatrixQuery => { reveal_strlit("telemetry_matrix_query"); },
        RuntimeMetric::InboxApprovalScan => { reveal_strlit("inbox_approval_scan"); },
        RuntimeMetric::InboxTerminalScan => { reveal_strlit("inbox_terminal_scan"); },
        RuntimeMetric::AppMetrics => { reveal_strlit("app_metrics"); },
        RuntimeMetric::MetricsTick => { reveal_strlit("metrics_tick"); },
    }
}

/// No two metrics share a name, so reports keep them apart.
pub proof fn law_metric_names_are_distinct(a: RuntimeMetric, b: RuntimeMetric)
    requires
        a != b,
    ensures
        metric_name(a) != metric_name(b),
{
    lemma_name_key(a);
    lemma_name_key(b);
}

/// One metric's totals over an interval.
#[derive(Clone, Copy, Debug, PartialEq, Eq)]
pub struct MetricSample {
    pub calls: u64,
    pub units: u64,
    pub wall_ns: u64,
    pub cpu_ns: u64,
}

impl Default for MetricSample {
    fn default() -> (r: Self)
        ensures
            r == (MetricSample { calls: 0, units: 0, wall_ns: 0, cpu_ns: 0 }),
    {
        MetricSample { calls: 0, units: 0, wall_ns: 0, cpu_ns: 0 }
    }
}

impl MetricSample {
    /// Nothing happened in the interval.
    pub fn is_empty(self) -> (r: bool)
        ensures
            r == (self.calls == 0 && self.units == 0 && self.wall_ns == 0 && self.cpu_ns == 0),
    {
        self.calls == 0 && self.units == 0 && self.wall_ns == 0 && self.cpu_ns == 0
    }
}

pub open spec fn wrap_add(a: u64, b: u64) -> u64 {
    ((a + b) % 0x1_0000_0000_0000_0000) as u64
}

/// The running totals of one metric; the counters wrap on overflow.
#[derive(Debug)]
pub struct MetricCounters {
    calls: u64,
    units: u64,
    wall_ns: u64,
    cpu_ns: u64,
}

impl MetricCounters {
    pub closed spec fn totals(&self) -> MetricSample {
        MetricSample { calls: self.calls, units: self.units, wall_ns: self.wall_ns, cpu_ns: self.cpu_ns }
    }

    pub fn new() -> (r: Self)
        ensures
            r.totals() == (MetricSample { calls: 0, units: 0, wall_ns: 0, cpu_ns: 0 }),
    {
        MetricCounters { calls: 0, units: 0, wall_ns: 0, cpu_ns: 0 }
    }

    /// Counts one call with its units and times.
    pub fn record(&mut self, units: u64, wall_ns: u64, cpu_ns: u64)
        ensures
            final(self).totals() == (MetricSample {
                calls: wrap_add(old(self).totals().calls, 1),
                units: wrap_add(old(self).totals().units, units),
                wall_ns: wrap_add(old(self).totals().wall_ns, wall_ns),
                cpu_ns: wrap_add(old(self).totals().cpu_ns, cpu_ns),
            }),
    {
        self.calls = self.calls.wrapping_add(1);
        self.units = self.units.wrapping_add(units);
        self.wall_ns = self.wall_ns.wrapping_add(wall_ns);
        self.cpu_ns = self.cpu_ns.wrapping_add(cpu_ns);
    }

    /// Hands out the totals since the last take and starts again from zero.
    pub fn take(&mut self) -> (r: MetricSample)
        ensures
            r == old(self).totals(),
            final(self).totals() == (MetricSample { calls: 0, units: 0, wall_ns: 0, cpu_ns: 0 }),
    {
        let r = MetricSample { calls: self.calls, units: self.units, wall_ns: self.wall_ns, cpu_ns: self.cpu_ns };
        self.calls = 0;
        self.units = 0;
        self.wall_ns = 0;
        self.cpu_ns = 0;
        r
    }
}

/// Takes every metric's totals, in reporting order, keeping those that are
/// not empty; every counter starts again from zero.
pub fn take_nonempty_samples(counters: &mut Vec<MetricCounters>) -> (r: Vec<(RuntimeMetric, MetricSample)>)
    requires
        old(counters)@.len() == METRIC_COUNT,
    ensures
        final(counters)@.len() == METRIC_COUNT,
        forall|i: int| 0 <= i < METRIC_COUNT ==> (#[trigger] final(counters)@[i]).totals()
            == (MetricSample { calls: 0, units: 0, wall_ns: 0, cpu_ns: 0 }),
        r@ == nonempty_samples(old(counters)@, METRIC_COUNT as int),
{
    let all = RuntimeMetric::all();
    let ghost before = counters@;
    let mut out: Vec<(RuntimeMetric, MetricSample)> = Vec::new();
    let mut i: usize = 0;
    while i < METRIC_COUNT
        invariant
            i <= METRIC_COUNT,
            all@.len() == METRIC_COUNT,
            forall|m: RuntimeMetric| #[trigger] all@[metric_index(m)] == m,
            counters@.len() == METRIC_COUNT,
            forall|j: int| 0 <= j < i ==> (#[trigger] counters@[j]).totals()
                == (MetricSample { calls: 0, units: 0, wall_ns: 0, cpu_ns: 0 }),
            forall|j: int| i <= j < METRIC_COUNT ==> #[trigger] counters@[j] == before[j],
            out@ == nonempty_samples(before, i as int),
        decreases METRIC_COUNT - i,
    {
        let mut c = counters.remove(i);
        let sample = c.take();
        counters.insert(i, c);
        if !sample.is_empty() {
            out.push((all[i], sample));
        }
        proof {
            lemma_all_order(all@, i as int);
        }
        i = i + 1;
    }
    out
}

proof fn lemma_all_order(all: Seq<RuntimeMetric>, i: int)
    requires
        0 <= i < METRIC_COUNT,
        all.len() == METRIC_COUNT,
        forall|m: RuntimeMetric| #[trigger] all[metric_index(m)] == m,
    ensures
        all[i] == metric_at(i),
{
    let m = metric_at(i);
    assert(metric_index(m) == i);
    assert(all[metric_index(m)] == m);
}

/// The metric reported in position `i`.
pub open spec fn metric_at(i: int) -> RuntimeMetric {
    if i == 0 { RuntimeMetric::PtyRead } else
    if i == 1 { RuntimeMetric::PtyPostprocess } else
    if i == 2 { RuntimeMetric::TerminalBrokerOutput } else
    if i == 3 { RuntimeMetric::TerminalRegister } else
    if i == 4 { RuntimeMetric::TerminalUpdate } else
    if i == 5 { RuntimeMetric::TerminalViewport } else
    if i == 6 { RuntimeMetric::TerminalSnapshot } else
    if i == 7 { RuntimeMetric::TerminalReadEvents } else
    if i == 8 { RuntimeMetric::TerminalAckEvents } else
    if i == 9 { RuntimeMetric::ProviderLogRead } else
    if i == 10 { RuntimeMetric::CodexWatcherPoll } else
    if i == 11 { RuntimeMetric::PiWatcherPoll } else
    if i == 12 { RuntimeMetric::ClaudeWatcherPoll } else
    if i == 13 { RuntimeMetric::ClaudeHookPoll } else
    if i == 14 { RuntimeMetric::AntigravityWatcherPoll } else
    if i == 15 { RuntimeMetric::AntigravityLatestStep } else
    if i == 16 { RuntimeMetric::AntigravityMessageScan } else
    if i == 17 { RuntimeMetric::TelemetryIngestDiscover } else
    if i == 18 { RuntimeMetric::TelemetryIngestPass } else
    if i == 19 { RuntimeMetric::TelemetryFleetQuery } else
    if i == 20 { RuntimeMetric::TelemetryMatrixQuery } else
    if i == 21 { RuntimeMetric::InboxApprovalScan } else
    if i == 22 { RuntimeMetric::InboxTerminalScan } else
    if i == 23 { RuntimeMetric::AppMetrics } else { RuntimeMetric::MetricsTick }
}

/// The non-empty totals among the first `n` counters, each with its metric.
pub open spec fn nonempty_samples(counters: Seq<MetricCounters>, n: int) -> Seq<(RuntimeMetric, MetricSample)>
    decreases n,
{
    if n <= 0 {
        Seq::empty()
    } else {
        let prev = nonempty_samples(counters, n - 1);
        let t = counters[n - 1].totals();
        if t.calls == 0 && t.units == 0 && t.wall_ns == 0 && t.cpu_ns == 0 { prev } else { prev.push((metric_at(n - 1), t)) }
    }
}

/// The profile is on when the variable, trimmed and lowercased, is `1`, `true` or `yes`.
pub open spec fn profile_enabled_spec(value: Seq<char>) -> bool {
    let v = ascii_lower_seq(trim_spec(value));
    v == "1"@ || v == "true"@ || v == "yes"@
}

/// Reads the value of the variable that switches the profile on.
pub fn profile_enabled_value(value: &str) -> (r: bool)
    ensures
        r == profile_enabled_spec(value@),
{
    let t = trimmed_chars(value);
    let v = ascii_lower(t.as_slice());
    let one = chars_of("1");
    let yes_true = chars_of("true");
    let yes = chars_of("yes");
    chars_eq(v.as_slice(), one.as_slice()) || chars_eq(v.as_slice(), yes_true.as_slice())
        || chars_eq(v.as_slice(), yes.as_slice())
}

/// Seconds between reports: the variable's number clamped to an hour at most
/// and a second at least, or ten when it is unset or not a number.
pub open spec fn report_interval_spec(value: Option<Seq<char>>) -> u64 {
    match value {
        Some(v) => match parse_unsigned_spec(v, u64::MAX as nat) {
            Some(n) => if n < 1 { 1 } else if n > 3600 { 3600 } else { n as u64 },
            None => DEFAULT_REPORT_INTERVAL_SECS,
        },
        None => DEFAULT_REPORT_INTERVAL_SECS,
    }
}

pub fn report_interval_secs(value: Option<&str>) -> (r: u64)
    ensures
        r == report_interval_spec(match value { Some(v) => Some(v@), None => None }),
{
    match value {
        Some(v) => {
            let cs = chars_of(v);
            match parse_unsigned(cs.as_slice(), u64::MAX) {
                Some(n) => if n < 1 { 1 } else if n > 3600 { 3600 } else { n },
                None => DEFAULT_REPORT_INTERVAL_SECS,
            }
        },
        None => DEFAULT_REPORT_INTERVAL_SECS,
    }
}

/// CPU time spent between two readings of the thread's clock, when both were had.
pub fn cpu_delta(before: Option<u64>, after: Option<u64>) -> (r: u64)
    ensures
        r == match (before, after) {
            (Some(b), Some(a)) => if a >= b { (a - b) as u64 } else { 0 },
            _ => 0,
        },
{
    match (before, after) {
        (Some(b), Some(a)) => a.saturating_sub(b),
        _ => 0,
    }
}

} // verus!
