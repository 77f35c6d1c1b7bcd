use witchcraft_server::logging::gauge::{
    GaugeAction, GaugeEvent, GaugeReporter, GaugeState, TARGET_CONCURRENT_TASKS,
    TOO_LONG_THRESHOLD_MILLIS,
};
use witchcraft_server::logging::metric::{
    metric_name, metric_type, timer_max_micros, value_keys, MetricId, MetricKind,
};

fn id(name: &str, tags: &[(&str, &str)]) -> MetricId {
    MetricId {
        name: name.to_string(),
        tags: tags.iter().map(|(k, v)| (k.to_string(), v.to_string())).collect(),
    }
}

#[test]
fn sends_gauge_immediately() {
    // The parts of a gauge's metric log entry: its type, its value key, and its name and tags.
    let gauge = id("test.gauge", &[("tag", "value")]);
    assert_eq!(metric_type(MetricKind::Gauge), "gauge");
    assert_eq!(value_keys(MetricKind::Gauge), vec!["value"]);
    assert_eq!(gauge.name, "test.gauge");
    assert_eq!(gauge.tags, vec![("tag".to_string(), "value".to_string())]);
    assert_eq!(metric_name(&gauge), "test.gauge[tag:value]");
}

#[test]
fn metric_names_and_values() {
    assert_eq!(metric_name(&id("a", &[])), "a");
    assert_eq!(metric_name(&id("a", &[("k", "v"), ("x", "y")])), "a[k:v,x:y]");
    assert_eq!(metric_type(MetricKind::Counter), "counter");
    assert_eq!(metric_type(MetricKind::Meter), "meter");
    assert_eq!(metric_type(MetricKind::Histogram), "histogram");
    assert_eq!(metric_type(MetricKind::Timer), "timer");
    assert_eq!(value_keys(MetricKind::Counter), vec!["count"]);
    assert_eq!(value_keys(MetricKind::Meter), vec!["count", "1m"]);
    assert_eq!(value_keys(MetricKind::Histogram), vec!["max", "p95", "p99", "p999", "count"]);
    assert_eq!(value_keys(MetricKind::Timer), vec!["max", "p95", "p99", "p999", "count", "1m"]);
    assert_eq!(timer_max_micros(1_999), 1);
    assert_eq!(timer_max_micros(-1_999), -1);
    assert_eq!(timer_max_micros(i64::MIN), i64::MIN / 1000);
}

#[test]
fn gauges_are_not_read_twice_at_once() {
    let mut reporter = GaugeReporter::new();
    let a = id("a", &[("k", "v")]);
    let a2 = id("a", &[("k", "v")]);
    let b = id("a", &[("k", "w")]);
    assert!(reporter.is_empty());
    assert!(reporter.insert(&a));
    assert!(!reporter.insert(&a2));
    assert!(reporter.insert(&b));
    assert!(reporter.contains(&a2));
    reporter.finish(&a);
    assert!(!reporter.contains(&a));
    assert!(reporter.contains(&b));
    assert!(reporter.insert(&a2));
    reporter.finish(&a2);
    reporter.finish(&b);
    assert!(reporter.is_empty());
}

#[test]
fn a_gauge_read_gives_its_permit_back_once() {
    assert_eq!(TARGET_CONCURRENT_TASKS, 2);
    assert_eq!(TOO_LONG_THRESHOLD_MILLIS, 500);
    let (s, a) = GaugeState::Acquiring.step(GaugeEvent::PermitAcquired);
    assert_eq!(s, GaugeState::Running { holds_permit: true });
    assert_eq!(a, GaugeAction { spawn: true, release_permit: false, complete: false });
    let (s, a) = s.step(GaugeEvent::Polled { timed_out: false, finished: false });
    assert_eq!(s, GaugeState::Running { holds_permit: true });
    assert!(!a.release_permit);
    let (s, a) = s.step(GaugeEvent::Polled { timed_out: true, finished: false });
    assert_eq!(s, GaugeState::Running { holds_permit: false });
    assert!(a.release_permit && !a.complete);
    let (s, a) = s.step(GaugeEvent::Polled { timed_out: true, finished: true });
    assert_eq!(s, GaugeState::Done);
    assert_eq!(a, GaugeAction { spawn: false, release_permit: false, complete: true });
    let (s, a) = GaugeState::Running { holds_permit: true }
        .step(GaugeEvent::Polled { timed_out: false, finished: true });
    assert_eq!(s, GaugeState::Done);
    assert!(a.release_permit && a.complete);
}
