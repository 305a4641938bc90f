use std::collections::HashSet;
use wardian_state::runtime_profile::{
    cpu_delta, profile_enabled_value, report_interval_secs, take_nonempty_samples, MetricCounters, MetricSample,
    RuntimeMetric, METRIC_COUNT,
};

#[test]
fn metric_names_are_unique_and_complete() {
    let names = RuntimeMetric::all().into_iter().map(RuntimeMetric::name).collect::<HashSet<_>>();
    assert_eq!(names.len(), METRIC_COUNT);
}

#[test]
fn counters_return_interval_deltas() {
    let mut counters = MetricCounters::new();
    counters.record(4_096, 2_000_000, 1_000_000);
    counters.record(512, 3_000_000, 2_000_000);
    assert_eq!(
        counters.take(),
        MetricSample { calls: 2, units: 4_608, wall_ns: 5_000_000, cpu_ns: 3_000_000 }
    );
    assert_eq!(counters.take(), MetricSample::default());
}

#[test]
fn counters_wrap_rather_than_overflow() {
    let mut counters = MetricCounters::new();
    counters.record(u64::MAX, 0, 0);
    counters.record(2, 0, 0);
    assert_eq!(counters.take().units, 1);
}

#[test]
fn the_profile_switch_accepts_the_usual_spellings() {
    assert!(profile_enabled_value(" TRUE "));
    assert!(profile_enabled_value("1"));
    assert!(profile_enabled_value("yes"));
    assert!(!profile_enabled_value("on"));
    assert!(!profile_enabled_value(""));
}

#[test]
fn the_report_interval_is_clamped_and_defaults() {
    assert_eq!(report_interval_secs(None), 10);
    assert_eq!(report_interval_secs(Some("abc")), 10);
    assert_eq!(report_interval_secs(Some("0")), 1);
    assert_eq!(report_interval_secs(Some("99999")), 3600);
    assert_eq!(report_interval_secs(Some("+30")), 30);
}

#[test]
fn only_nonempty_samples_are_reported_in_order() {
    let mut counters: Vec<MetricCounters> = (0..METRIC_COUNT).map(|_| MetricCounters::new()).collect();
    counters[1].record(3, 0, 0);
    counters[24].record(0, 5, 0);
    let taken = take_nonempty_samples(&mut counters);
    assert_eq!(taken.len(), 2);
    assert_eq!(taken[0].0.name(), "pty_postprocess");
    assert_eq!(taken[0].1, MetricSample { calls: 1, units: 3, wall_ns: 0, cpu_ns: 0 });
    assert_eq!(taken[1].0.name(), "metrics_tick");
    assert!(take_nonempty_samples(&mut counters).is_empty());
}

#[test]
fn cpu_time_is_a_saturating_difference_of_two_readings() {
    assert_eq!(cpu_delta(Some(10), Some(25)), 15);
    assert_eq!(cpu_delta(Some(25), Some(10)), 0);
    assert_eq!(cpu_delta(None, Some(10)), 0);
}
