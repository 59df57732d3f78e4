use boa_idb::driver::{DriverState, OpenKind, PendingOp, PendingOpen};
use boa_idb::error::IdbError;
use boa_idb::open_step::{closed_step, OpenStep, QueueAction};
use boa_idb::key_range::RangeData;
use boa_idb::proto::{Durability, SourceRef, TxnMode};
use boa_idb::schema::{DatabaseMeta, KeyPath, StoreMeta};
use boa_idb::txn::TxnWork;

fn store(id: u64, name: &str, deleted: bool) -> StoreMeta {
    StoreMeta {
        id,
        name: name.to_string(),
        key_path: KeyPath::Empty,
        auto_increment: false,
        indexes: Vec::new(),
        deleted,
    }
}

fn meta(stores: Vec<StoreMeta>) -> DatabaseMeta {
    DatabaseMeta {
        name: "db".to_string(),
        version: 1,
        stores,
        next_store_id: 10,
        next_index_id: 10,
    }
}

fn get_op(store_id: u64) -> PendingOp {
    PendingOp::Get {
        source: SourceRef::Store(store_id),
        range: RangeData::All,
    }
}

fn open(request_id: u64, kind: OpenKind) -> PendingOpen {
    PendingOpen {
        kind,
        name: "db".to_string(),
        version: 1,
        conn_id: 1,
        request_id,
        upgrade_active: false,
        upgrade_txn_id: None,
        queued: false,
        blocked_fired: false,
        upgrade_versions: None,
    }
}

#[test]
fn ids_are_handed_out_in_order() {
    let mut d = DriverState::new();
    assert_eq!(d.alloc_request(), 0);
    assert_eq!(d.alloc_request(), 1);
    assert_eq!(d.alloc_txn(), 0);
    assert_eq!(d.alloc_cursor(), 0);
    assert_eq!(d.alloc_cursor(), 1);
    assert_eq!(d.alloc_conn(), 0);
}

#[test]
fn create_txn_checks_scope() {
    let mut d = DriverState::new();
    let err = d.create_txn(
        1,
        "db".to_string(),
        TxnMode::ReadOnly,
        vec![1, 2],
        Durability::Default,
        meta(vec![store(1, "a", false), store(2, "b", true)]),
    );
    match err {
        Err(IdbError::NotFound(m)) => assert_eq!(m, "Object store id 2 not found"),
        other => panic!("unexpected {other:?}"),
    }
    let ok = d
        .create_txn(
            1,
            "db".to_string(),
            TxnMode::ReadWrite,
            vec![1],
            Durability::Strict,
            meta(vec![store(1, "a", false)]),
        )
        .unwrap();
    // The failed attempt used up an id too.
    assert_eq!(ok, 1);
    let h = d.txns.get(&ok).unwrap();
    assert!(h.active && !h.finished && !h.started);
    assert_eq!(h.mode, TxnMode::ReadWrite);
}

#[test]
fn queued_requests_run_in_fifo_order_once_started() {
    let mut d = DriverState::new();
    let t = d
        .create_txn(
            1,
            "db".to_string(),
            TxnMode::ReadOnly,
            vec![1],
            Durability::Default,
            meta(vec![store(1, "a", false)]),
        )
        .unwrap();
    d.enqueue(t, 10, get_op(1));
    d.enqueue(t, 11, get_op(1));
    assert!(d.has_pending_work());
    let mut served = Vec::new();
    // Not started yet: nothing to run.
    assert!(d.take_next_work(&mut served).is_none());
    d.mark_txn_started(t);
    let mut served = Vec::new();
    match d.take_next_work(&mut served) {
        Some(TxnWork::Exec {
            txn_id, request_id, ..
        }) => {
            assert_eq!(txn_id, t);
            assert_eq!(request_id, 10);
        }
        _ => panic!("expected the head request"),
    }
    // One request per transaction per round.
    assert!(d.take_next_work(&mut served).is_none());
    let mut served = Vec::new();
    match d.take_next_work(&mut served) {
        Some(TxnWork::Exec { request_id, .. }) => assert_eq!(request_id, 11),
        _ => panic!("expected the second request"),
    }
}

#[test]
fn queue_of_finished_txn_is_reported_stalled() {
    let mut d = DriverState::new();
    let t = d
        .create_txn(
            1,
            "db".to_string(),
            TxnMode::ReadOnly,
            vec![],
            Durability::Default,
            meta(vec![]),
        )
        .unwrap();
    d.enqueue(t, 5, get_op(1));
    d.mark_txn_finished(t);
    let mut served = Vec::new();
    match d.take_next_work(&mut served) {
        Some(TxnWork::FailStalled { txn_id }) => assert_eq!(txn_id, t),
        _ => panic!("expected a stalled queue"),
    }
    assert_eq!(d.drain_txn_queue(t), vec![5]);
    assert!(!d.has_pending_work());
    assert!(d.ops.is_empty());
}

#[test]
fn commit_is_refused_when_stale_or_inactive() {
    let mut d = DriverState::new();
    let t = d
        .create_txn(
            1,
            "db".to_string(),
            TxnMode::ReadWrite,
            vec![],
            Durability::Default,
            meta(vec![]),
        )
        .unwrap();
    assert!(d.commit_check(t, true, false, false).is_ok());
    assert!(matches!(
        d.commit_check(t, false, false, false),
        Err(IdbError::InvalidState(_))
    ));
    d.note_timer_task();
    assert!(d.commit_check(t, true, false, false).is_err());
    d.refresh_txn_epoch(t);
    assert!(d.commit_check(t, true, false, false).is_ok());
}

#[test]
fn idle_transactions_go_inactive_at_task_end() {
    let mut d = DriverState::new();
    let idle = d
        .create_txn(
            1,
            "db".to_string(),
            TxnMode::ReadOnly,
            vec![],
            Durability::Default,
            meta(vec![]),
        )
        .unwrap();
    let busy = d
        .create_txn(
            1,
            "db".to_string(),
            TxnMode::ReadOnly,
            vec![],
            Durability::Default,
            meta(vec![]),
        )
        .unwrap();
    d.enqueue(busy, 1, get_op(1));
    let ids = d.deactivate_idle_txns();
    assert_eq!(ids, vec![idle]);
    assert!(!d.txns.get(&idle).unwrap().active);
    assert!(d.txns.get(&busy).unwrap().active);
}

#[test]
fn connections_are_counted_per_database() {
    let mut d = DriverState::new();
    d.register_connection(1, "a".to_string());
    d.register_connection(2, "a".to_string());
    d.register_connection(3, "b".to_string());
    assert_eq!(d.live_connection_count("a"), 2);
    d.on_connection_closed(1);
    assert_eq!(d.live_connection_count("a"), 1);
    assert_eq!(d.live_connection_count("c"), 0);
}

#[test]
fn opens_are_found_and_removed_by_request() {
    let mut d = DriverState::new();
    d.enqueue_open(open(7, OpenKind::Open));
    d.enqueue_open(open(8, OpenKind::Delete));
    assert_eq!(d.find_open(8), Some(1));
    assert_eq!(d.waiting_open_ids(), vec![7, 8]);
    assert!(d.mark_blocked_fired(7));
    assert!(!d.mark_blocked_fired(7));
    d.remove_open(7);
    assert_eq!(d.find_open(7), None);
    assert_eq!(d.find_open(8), Some(0));
}

#[test]
fn upgrade_open_is_taken_by_its_transaction() {
    let mut d = DriverState::new();
    d.enqueue_open(open(7, OpenKind::Open));
    d.mark_upgrade_started(7, 42, 0, 1);
    let taken = d.take_upgrade_open(42).unwrap();
    assert_eq!(taken.request_id, 7);
    assert_eq!(taken.upgrade_versions, Some((0, 1)));
    assert!(d.take_upgrade_open(42).is_none());
}

#[test]
fn abort_takes_the_handle_and_its_queue() {
    let mut d = DriverState::new();
    let t = d
        .create_txn(
            1,
            "db".to_string(),
            TxnMode::ReadWrite,
            vec![],
            Durability::Default,
            meta(vec![]),
        )
        .unwrap();
    d.enqueue(t, 3, get_op(1));
    d.enqueue(t, 4, get_op(1));
    let (h, queued) = d.abort_txn(t).unwrap();
    assert_eq!(h.txn_id, t);
    assert_eq!(queued, vec![3, 4]);
    assert!(d.txns.is_empty());
    assert!(d.ops.is_empty());
    assert!(d.txn_of_request.is_empty());
    assert!(d.abort_txn(t).is_none());
}

#[test]
fn start_params_only_for_unstarted_live_txns() {
    let mut d = DriverState::new();
    let t = d
        .create_txn(
            1,
            "db".to_string(),
            TxnMode::ReadWrite,
            vec![],
            Durability::Relaxed,
            meta(vec![]),
        )
        .unwrap();
    let (name, mode, scope, durability) = d.start_params(t).unwrap();
    assert_eq!(name, "db");
    assert_eq!(mode, TxnMode::ReadWrite);
    assert!(scope.is_empty());
    assert_eq!(durability, Durability::Relaxed);
    d.mark_txn_started(t);
    assert!(d.start_params(t).is_none());
    assert!(d.start_params(99).is_none());
}

#[test]
fn new_open_and_upgrade_versions() {
    let o = PendingOpen::new(OpenKind::Open, "db".to_string(), 3, 7, 8);
    assert!(!o.queued && !o.upgrade_active && !o.blocked_fired);
    assert_eq!(o.upgrade_event_versions(), (0, 3));
    let mut d = DriverState::new();
    d.enqueue_open(o);
    d.mark_upgrade_started(8, 1, 2, 3);
    assert_eq!(d.opens[0].upgrade_event_versions(), (2, 3));
}

#[test]
fn end_of_task_deactivates_every_transaction() {
    let mut d = DriverState::new();
    let a = d
        .create_txn(
            1,
            "db".to_string(),
            TxnMode::ReadOnly,
            vec![],
            Durability::Default,
            meta(vec![]),
        )
        .unwrap();
    let b = d
        .create_txn(
            1,
            "db".to_string(),
            TxnMode::ReadOnly,
            vec![],
            Durability::Default,
            meta(vec![]),
        )
        .unwrap();
    d.enqueue(b, 1, get_op(1));
    d.mark_txn_finished(a);
    let ids = d.deactivate_all_txns();
    assert_eq!(ids, vec![b]);
    assert!(!d.txns.get(&a).unwrap().active);
    assert!(!d.txns.get(&b).unwrap().active);
}

#[test]
fn one_pump_job_at_a_time() {
    let mut d = DriverState::new();
    assert!(d.claim_pump());
    assert!(!d.claim_pump());
    d.release_pump();
    assert!(d.claim_pump());
}

#[test]
fn open_queue_actions_become_steps() {
    let mut d = DriverState::new();
    d.enqueue_open(open(7, OpenKind::Open));
    assert!(matches!(
        d.queue_step(7, QueueAction::SendBlocked),
        Some(OpenStep::FireBlocked { request_id: 7 })
    ));
    assert!(d.queue_step(7, QueueAction::SendBlocked).is_none());
    assert!(matches!(
        d.queue_step(7, QueueAction::OpenConnection { version: 3 }),
        Some(OpenStep::OpenConnection { request_id: 7, version: 3 })
    ));
    assert!(matches!(
        d.queue_step(7, QueueAction::FailOpen { error: IdbError::Version("lower".to_string()) }),
        Some(OpenStep::FailOpen { request_id: 7, error: IdbError::Version(_) })
    ));
    assert!(matches!(
        closed_step(7, Some(QueueAction::StartUpgrade { old_version: 1, new_version: 2 })),
        Some(OpenStep::StartUpgrade { request_id: 7, old_version: 1, new_version: 2 })
    ));
    assert!(matches!(closed_step(8, Some(QueueAction::StartDelete)), Some(OpenStep::StartDelete { request_id: 8 })));
    assert!(closed_step(7, Some(QueueAction::SendBlocked)).is_none());
    assert!(closed_step(7, None).is_none());
}
