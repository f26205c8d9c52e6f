use ycsb::db::{RocksDB, DB};
use ycsb::harness::{parse_command, thread_operation_count, Command, MAX_IN_FLIGHT};
use ycsb::retry::RetryLoop;
use ycsb::stats::{report_due, Request, StatsCollector, StatsError};

/// Drives one operation against a stub whose attempts time out as `stub`
/// says, and returns the success flags of the events emitted.
fn drive(budget: u64, stub: impl Fn(usize) -> bool) -> Vec<bool> {
    let mut state = RetryLoop::new(budget);
    let mut events = Vec::new();
    let mut attempt = 0;
    while state.should_attempt() {
        events.push(state.record(stub(attempt)));
        attempt += 1;
    }
    events
}

#[test]
fn retry_against_a_store_that_always_times_out() {
    assert_eq!(drive(5, |_| true), vec![false; 5]);
}

#[test]
fn retry_stops_after_a_first_success() {
    assert_eq!(drive(5, |_| false), vec![true]);
}

#[test]
fn retry_keeps_going_after_a_timeout() {
    assert_eq!(drive(5, |i| i == 0), vec![false, true, true, true, true]);
}

#[test]
fn retry_with_no_budget_makes_no_attempt() {
    assert_eq!(drive(0, |_| false), Vec::<bool>::new());
}

#[test]
fn stats_report_percentiles_and_success_rate() {
    let mut stats = StatsCollector::new().unwrap();
    for latency in [10, 20, 30, 40] {
        stats.record(Request { latency, success: true }).unwrap();
    }
    let counts = stats.counts();
    assert_eq!(counts.total, 4);
    assert_eq!(counts.successes, 4);
    assert_eq!(counts.successes as f64 / counts.total as f64, 1.0);
    let p50 = stats.histogram().inner.value_at_quantile(0.5);
    assert!((20..=30).contains(&p50), "p50 {}", p50);
    stats.reset();
    assert_eq!(stats.counts().total, 0);
    assert_eq!(stats.histogram().inner.len(), 0);
}

#[test]
fn stats_count_failures_and_refuse_huge_latencies() {
    let mut stats = StatsCollector::new().unwrap();
    stats.record(Request { latency: 5, success: false }).unwrap();
    stats.record(Request { latency: 7, success: true }).unwrap();
    assert_eq!(
        stats.record(Request { latency: u64::MAX, success: true }),
        Err(StatsError::LatencyOutOfRange)
    );
    let counts = stats.counts();
    assert_eq!((counts.successes, counts.total), (1, 2));
}

#[test]
fn commands_and_worker_shares() {
    assert_eq!(parse_command(&String::from("load")), Some(Command::Load));
    assert_eq!(parse_command(&String::from("run")), Some(Command::Run));
    assert_eq!(parse_command(&String::from("scan")), None);
    assert_eq!(thread_operation_count(4000, 4), Some(1000));
    assert_eq!(thread_operation_count(10, 3), Some(3));
    assert_eq!(thread_operation_count(10, 0), None);
    assert_eq!(MAX_IN_FLIGHT, 300);
}

#[test]
fn end_to_end_read_run_emits_one_event_per_operation() {
    // Four workers, a budget of 4000, every attempt completing at once.
    let share = thread_operation_count(4000, 4).unwrap();
    let mut stats = StatsCollector::new().unwrap();
    let mut store = RocksDB::new().unwrap();
    store.init().unwrap();
    for _worker in 0..4 {
        for _ in 0..share {
            let mut state = RetryLoop::new(100);
            while state.should_attempt() {
                let mut out = Vec::new();
                store.read("usertable", "k", &mut out).unwrap();
                let success = state.record(false);
                stats.record(Request { latency: 1, success }).unwrap();
            }
        }
    }
    assert_eq!(share, 1000);
    assert_eq!(stats.counts().total, 4000);
    assert_eq!(stats.counts().successes, 4000);
}

#[test]
fn embedded_store_accepts_every_operation() {
    let mut db = RocksDB::new().unwrap();
    assert_eq!(db.path, "rocksdbtemp/");
    let values = vec![(String::from("field0"), String::from("x"))];
    assert!(db.insert("usertable", "k", &values).is_ok());
    assert!(db.update("usertable", "k", &values).is_ok());
    let mut out = Vec::new();
    assert!(db.read("usertable", "k", &mut out).is_ok());
    assert!(out.is_empty());
}

#[test]
fn stats_window_closes_with_its_counts() {
    let mut stats = StatsCollector::new().unwrap();
    stats.record(Request { latency: 12, success: true }).unwrap();
    stats.record(Request { latency: 15, success: false }).unwrap();
    let counts = stats.finish_window();
    assert_eq!((counts.successes, counts.total), (1, 2));
    assert_eq!(stats.counts().total, 0);
    assert_eq!(stats.histogram().inner.len(), 0);
    assert!(!report_due(99));
    assert!(report_due(100));
}

#[test]
fn stats_record_every_latency_up_to_one_hour() {
    let mut stats = StatsCollector::new().unwrap();
    assert_eq!(stats.record(Request { latency: 0, success: true }), Ok(()));
    assert_eq!(stats.record(Request { latency: ycsb::stats::LATENCY_HIGH_MS, success: true }), Ok(()));
    assert_eq!(stats.counts().total, 2);
}

#[test]
fn retry_stops_on_a_store_error() {
    let mut state = RetryLoop::new(5);
    assert!(!state.record(true));
    assert!(state.should_attempt());
    state.record_error();
    assert!(!state.should_attempt());
    assert_eq!(state.remaining, 4);
}
