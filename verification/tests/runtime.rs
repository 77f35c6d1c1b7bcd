use std::cell::Cell;
use witchcraft_server::logging::logger::async_appender::{
    Closed, SendStatus, State, WorkerStep, QUEUE_LIMIT,
};
use witchcraft_server::metrics::jemalloc::{debounce_due, Debounced};
use witchcraft_server::metrics::proc::num_threads;
use witchcraft_server::metrics::rusage::{cpu_time_micros, cpu_time_micros_per_cpu, per_cpu};
use witchcraft_server::readiness::{
    is_valid_check_type, text_less, ReadinessCheck, ReadinessCheckRegistry, ReadinessCheckResult,
};

struct Check(&'static str, bool);

impl ReadinessCheck for Check {
    fn type_(&self) -> &str {
        self.0
    }

    fn result(&self) -> ReadinessCheckResult {
        ReadinessCheckResult::builder().successful(self.1).build()
    }
}

#[test]
fn readiness_registry() {
    let mut registry = ReadinessCheckRegistry::new();
    registry.register_inner("DATABASE", Check("DATABASE", true));
    registry.register_inner("CACHE_WARM", Check("CACHE_WARM", false));
    // a duplicate or a badly formed type is what a caller tests for before registering
    assert!(registry.contains("DATABASE"));
    assert!(!is_valid_check_type("lower"));
    assert!(!is_valid_check_type(""));
    assert_eq!(registry.len(), 2);
    assert!(registry.contains("CACHE_WARM"));
    let results = registry.run_checks();
    let got: Vec<(&str, bool)> = results.iter().map(|m| (m.type_.as_str(), m.successful)).collect();
    assert_eq!(got, vec![("CACHE_WARM", false), ("DATABASE", true)]);
    assert!(is_valid_check_type("A_B"));
    let mut sorted = ReadinessCheckRegistry::new();
    for t in ["Z", "A_", "AB", "A", "_"] {
        sorted.register_inner(t, Check(t, true));
    }
    let order: Vec<String> = sorted.run_checks().into_iter().map(|m| m.type_).collect();
    assert_eq!(order, vec!["A", "AB", "A_", "Z", "_"]);
    assert!(text_less("A", "AB") && text_less("AB", "A_") && !text_less("B", "A"));
    assert!(!is_valid_check_type("A-B"));
    assert!(ReadinessCheckResult::builder().successful(true).build().successful());
}

#[test]
fn thread_count_from_stat() {
    let stat = "1234 (a b) c) S 1 1 1 0 -1 4194560 100 0 0 0 5 3 0 0 20 0 7 0 12345 0 0";
    assert_eq!(num_threads(stat), Some(7));
    assert_eq!(num_threads("1 (x) S 1 2"), None);
    assert_eq!(num_threads("1 (x) S 1 1 1 0 -1 4 100 0 0 0 5 3 0 0 20 0 many 0"), None);
}

#[test]
fn debouncing() {
    assert!(!debounce_due(1_000_000_000));
    assert!(debounce_due(1_000_000_001));
    let calls = Cell::new(0);
    let mut d = Debounced::new(|| calls.set(calls.get() + 1));
    d.call_debounced();
    assert_eq!(calls.get(), 0);
    assert!(!d.call_if_due(std::time::Instant::now(), 1_000_000_000));
    assert_eq!(calls.get(), 0);
    assert!(d.call_if_due(std::time::Instant::now(), 1_000_000_001));
    assert_eq!(calls.get(), 1);
}

#[test]
fn async_queue() {
    let mut state: State<u32, &'static str> = State::new();
    assert_eq!(state.send_status(), SendStatus::Ready);
    assert!(state.is_flushed());
    state.set_read_waker("reader");
    assert_eq!(state.try_send(1), Ok(Some("reader")));
    assert_eq!(state.try_send(2), Ok(None));
    assert_eq!(state.len(), 2);
    let (item, _) = state.pop_front();
    assert_eq!(item, Some(1));
    let (item, _) = state.pop_front();
    assert_eq!(item, Some(2));
    state.set_write_waker("writer");
    assert_eq!(state.start_close(), (None, Some("writer")));
    assert_eq!(state.send_status(), SendStatus::Closed);
    assert_eq!(state.try_send(3), Err(3));
    assert!(state.is_closed());
    assert_eq!(QUEUE_LIMIT, 10_000);
    assert_eq!(Closed.to_string(), "Sink has already closed");
}

#[test]
fn worker_steps() {
    let mut state: State<u32, ()> = State::new();
    assert_eq!(state.worker_next(), WorkerStep::Wait);
    assert!(state.try_send(1).is_ok());
    assert!(state.try_send(2).is_ok());
    assert_eq!(state.worker_next(), WorkerStep::Deliver);
    assert_eq!(state.pop_front().0, Some(1));
    assert_eq!(state.worker_next(), WorkerStep::Deliver);
    assert_eq!(state.pop_front().0, Some(2));
    assert_eq!(state.worker_next(), WorkerStep::Flush);
    state.finish_flush();
    assert_eq!(state.worker_next(), WorkerStep::Wait);
    state.start_close();
    assert_eq!(state.worker_next(), WorkerStep::Close);
}

#[test]
fn async_queue_fills() {
    let mut state: State<usize, ()> = State::new();
    for i in 0..QUEUE_LIMIT {
        assert!(state.try_send(i).is_ok());
    }
    assert_eq!(state.send_status(), SendStatus::Full);
    assert_eq!(state.try_send(QUEUE_LIMIT), Err(QUEUE_LIMIT));
}

#[test]
fn cpu_times() {
    assert_eq!(cpu_time_micros(2, 500), 2_000_500);
    assert_eq!(cpu_time_micros(0, 1_500_000), 1_500_000);
    assert_eq!(cpu_time_micros(u64::MAX / 1_000_000 + 1, 0), (((u64::MAX / 1_000_000 + 1) as u128 * 1_000_000) % (1u128 << 64)) as u64);
    assert_eq!(per_cpu(10, 3), 3);
    assert_eq!(per_cpu(10, 1), 10);
    let norm = cpu_time_micros_per_cpu(1, 0);
    assert!(norm >= 1 && norm <= 1_000_000);
}
