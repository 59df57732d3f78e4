use std::time::Duration;

use boa_idb::error::{classify_error, error_name, ErrorClass, IdbError};
use boa_idb::observer::{
    error_event, micros, millis, IdbEvent, LatencyHistogram, ObserverState, HISTOGRAM_BOUNDS_US,
    HISTOGRAM_BUCKETS,
};
use boa_idb::proto::{txn_mode_name, TxnMode};

#[test]
fn histogram_is_bounded_and_indexed() {
    let mut hist = LatencyHistogram::new();
    assert_eq!(hist.buckets().len(), HISTOGRAM_BUCKETS);
    assert_eq!(HISTOGRAM_BOUNDS_US.len(), HISTOGRAM_BUCKETS);
    // One sample per bucket plus overflow and zero.
    hist.record(Duration::ZERO);
    hist.record(Duration::from_micros(1));
    hist.record(Duration::from_millis(5));
    hist.record(Duration::from_secs(60));
    hist.record(Duration::from_secs(3600 * 24 * 365 * 100));
    assert_eq!(hist.total(), 5);
    assert_eq!(hist.buckets().len(), HISTOGRAM_BUCKETS);
    // Overflow bucket is the last one and caught the century.
    assert!(hist.buckets()[HISTOGRAM_BUCKETS - 1] >= 1);
    // Bucket bounds are sorted (binary-searchable by construction).
    let mut sorted = HISTOGRAM_BOUNDS_US.to_vec();
    sorted.sort_unstable();
    assert_eq!(sorted, HISTOGRAM_BOUNDS_US.to_vec());
}

#[test]
fn classify_error_routes_quota_and_corruption() {
    assert_eq!(
        classify_error(&IdbError::QuotaExceeded {
            needed: 10,
            available: 5
        }),
        Some(ErrorClass::Quota)
    );
    assert_eq!(
        classify_error(&IdbError::NotReadable("torn".to_string())),
        Some(ErrorClass::Corruption)
    );
    for other in [
        IdbError::Abort,
        IdbError::Constraint("c".to_string()),
        IdbError::Data("d".to_string()),
        IdbError::Unknown("u".to_string()),
    ] {
        assert_eq!(classify_error(&other), None);
    }
}

#[test]
fn error_name_covers_all_variants() {
    let cases: Vec<(IdbError, &str)> = vec![
        (IdbError::Constraint("c".to_string()), "ConstraintError"),
        (IdbError::TransactionInactive, "TransactionInactiveError"),
        (IdbError::DataClone("c".to_string()), "DataCloneError"),
        (
            IdbError::InvalidAccess("a".to_string()),
            "InvalidAccessError",
        ),
        (IdbError::InvalidState("s".to_string()), "InvalidStateError"),
        (IdbError::NotFound("n".to_string()), "NotFoundError"),
        (IdbError::ReadOnly, "ReadOnlyError"),
        (IdbError::Abort, "AbortError"),
        (IdbError::Syntax("s".to_string()), "SyntaxError"),
        (IdbError::Data("d".to_string()), "DataError"),
        (IdbError::Version("v".to_string()), "VersionError"),
        (
            IdbError::QuotaExceeded {
                needed: 1,
                available: 0,
            },
            "QuotaExceededError",
        ),
        (IdbError::NotReadable("r".to_string()), "NotReadableError"),
        (IdbError::Unknown("u".to_string()), "UnknownError"),
    ];
    for (error, name) in cases {
        assert_eq!(error_name(&error), name);
    }
}

#[test]
fn txn_mode_names_and_time_helpers() {
    assert_eq!(txn_mode_name(TxnMode::ReadOnly), "readonly");
    assert_eq!(txn_mode_name(TxnMode::ReadWrite), "readwrite");
    assert_eq!(txn_mode_name(TxnMode::VersionChange), "versionchange");
    assert_eq!(millis(Duration::from_millis(1500)), 1500);
    assert_eq!(micros(Duration::from_micros(42)), 42);
    assert_eq!(millis(Duration::MAX), u64::MAX);
}

#[test]
fn histogram_and_state_defaults() {
    let _histo = LatencyHistogram::default();
    let _state = ObserverState::<u8>::default();
}

#[test]
fn histogram_bucket_edges_are_inclusive() {
    let mut hist = LatencyHistogram::new();
    hist.record(Duration::from_micros(10));
    hist.record(Duration::from_micros(11));
    hist.record(Duration::from_micros(10_000_000));
    hist.record(Duration::from_micros(10_000_001));
    assert_eq!(hist.buckets(), [0, 1, 1, 0, 0, 0, 0, 1, 1]);
    assert_eq!(hist.total(), 4);
}

#[test]
fn micros_and_millis_truncate_to_whole_units() {
    assert_eq!(micros(Duration::from_nanos(1999)), 1);
    assert_eq!(millis(Duration::from_micros(2999)), 2);
    assert_eq!(micros(Duration::MAX), u64::MAX);
}

#[test]
fn observer_state_counts_events() {
    let mut state: ObserverState<&'static str> = ObserverState::new();
    state.add_observer("a");
    state.add_observer("b");
    let observers = state.record(&IdbEvent::TransactionBegun {
        txn: 1,
        database: "db".to_string(),
        mode: TxnMode::ReadWrite,
        scope_len: 1,
    });
    assert_eq!(observers, vec!["a", "b"]);
    state.record(&IdbEvent::RequestCompleted {
        txn: 1,
        request: 7,
        duration: Duration::from_micros(50),
        bytes_read: 10,
        bytes_written: 20,
        failed: false,
    });
    state.record(&IdbEvent::RequestCompleted {
        txn: 1,
        request: 8,
        duration: Duration::from_micros(5),
        bytes_read: 1,
        bytes_written: 2,
        failed: true,
    });
    state.record(&IdbEvent::TransactionCommitted {
        txn: 1,
        database: "db".to_string(),
        duration: Duration::from_millis(2),
        bytes_read: 11,
        bytes_written: 22,
    });
    state.record(&IdbEvent::TransactionAborted {
        txn: 2,
        database: "db".to_string(),
    });
    state.record(&IdbEvent::QuotaExceeded {
        database: "db".to_string(),
    });
    state.record_dropped_requests(3);
    let stats = state.stats();
    assert_eq!(stats.txns_begun, 1);
    assert_eq!(stats.txns_committed, 1);
    assert_eq!(stats.txns_aborted, 1);
    assert_eq!(stats.requests_completed, 1);
    assert_eq!(stats.requests_failed, 4);
    // Bytes are counted once, from the requests only.
    assert_eq!(stats.bytes_read, 11);
    assert_eq!(stats.bytes_written, 22);
    assert_eq!(stats.request_latency, [0, 1, 1, 0, 0, 0, 0, 0, 0]);
    assert_eq!(stats.txn_latency, [0, 0, 0, 0, 1, 0, 0, 0, 0]);
    assert_eq!(stats.observers, 2);
}

#[test]
fn observer_counters_saturate() {
    let mut state: ObserverState<u8> = ObserverState::new();
    state.record(&IdbEvent::RequestCompleted {
        txn: 1,
        request: 1,
        duration: Duration::ZERO,
        bytes_read: u64::MAX,
        bytes_written: 0,
        failed: false,
    });
    state.record(&IdbEvent::RequestCompleted {
        txn: 1,
        request: 2,
        duration: Duration::ZERO,
        bytes_read: 5,
        bytes_written: 0,
        failed: false,
    });
    state.record_dropped_requests(usize::MAX);
    state.record_dropped_requests(1);
    let stats = state.stats();
    assert_eq!(stats.bytes_read, u64::MAX);
    assert_eq!(stats.requests_failed, u64::MAX);
}

#[test]
fn error_events_name_the_database() {
    assert_eq!(
        error_event(
            "db",
            &IdbError::QuotaExceeded {
                needed: 2,
                available: 1
            }
        ),
        Some(IdbEvent::QuotaExceeded {
            database: "db".to_string()
        })
    );
    assert_eq!(
        error_event("db", &IdbError::NotReadable("x".to_string())),
        Some(IdbEvent::Corruption {
            database: "db".to_string()
        })
    );
    assert_eq!(error_event("db", &IdbError::Abort), None);
}

#[test]
fn latency_totals_follow_request_and_commit_counts() {
    let mut state: ObserverState<u8> = ObserverState::new();
    state.add_observer(1);
    state.add_observer(2);
    for (i, failed) in [false, true, false].iter().enumerate() {
        state.record(&IdbEvent::RequestCompleted {
            txn: 1,
            request: i as u64,
            duration: Duration::from_micros(50 * (i as u64 + 1)),
            bytes_read: 1,
            bytes_written: 2,
            failed: *failed,
        });
    }
    state.record(&IdbEvent::TransactionCommitted {
        txn: 1,
        database: "db".to_string(),
        duration: Duration::from_millis(3),
        bytes_read: 3,
        bytes_written: 6,
    });
    state.record(&IdbEvent::TransactionAborted { txn: 2, database: "db".to_string() });
    let stats = state.stats();
    assert_eq!(stats.request_latency.iter().sum::<u64>(), stats.requests_completed + stats.requests_failed);
    assert_eq!(stats.requests_completed, 2);
    assert_eq!(stats.requests_failed, 1);
    assert_eq!(stats.txn_latency.iter().sum::<u64>(), stats.txns_committed);
    assert_eq!(stats.txns_committed, 1);
    assert_eq!(stats.observers, 2);
    assert_eq!(stats.bytes_read, 3);
}
