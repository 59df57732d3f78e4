use boa_idb::api::factory::open_version;
use boa_idb::api::request::{error_aborts_transaction, ready_state_name, result_readable, ReadyState};
use boa_idb::dom::event::{
    event_cancelable, phase_listeners, Dispatch, DispatchStep, EventData, ListenerRun, ListenerStep,
    PathNode, AT_TARGET,
    BUBBLING_PHASE,
    CAPTURING_PHASE, NONE,
};
use boa_idb::api::cursor::{
    advance_count_check, continue_primary_key_check, cursor_write_check, require_position,
};
use boa_idb::api::database::{connection_open_check, resolve_scope, schema_txn_of, transaction_args};
use boa_idb::api::object_store::{put_key_check, require_readwrite, KeyProbe};
use boa_idb::api::support::{active_txn_id, count_limit, ApiError};
use boa_idb::api::transaction::{abort_check, durability_name};
use boa_idb::convert::value::MemoCounter;
use boa_idb::cursor::CursorRow;
use boa_idb::cursor_ops::{cursor_update_key, truncate_rows, CursorRowView, CursorView};
use boa_idb::dom::event_target::{
    add_listener, next_listener_id, remove_listener, remove_listener_by_id, snapshot_listeners,
    snapshot_listeners_full, EventListenerEntry,
};
use boa_idb::dom::name_order::{sort_by_code_units, utf16_units};
use boa_idb::dom::exception::{dom_exception_code, exception_for, DomException};
use boa_idb::dom::string_list::DomStringListData;
use boa_idb::driver::DriverState;
use boa_idb::error::IdbError;
use boa_idb::io::IoRuntime;
use boa_idb::proto::{Direction, Durability, SourceRef, TxnMode};
use boa_idb::schema::{DatabaseMeta, IndexMeta, KeyPath, StoreMeta};

fn listener(event_type: &str, callback: u64, capture: bool, id: u64) -> EventListenerEntry {
    EventListenerEntry {
        event_type: event_type.to_string(),
        callback,
        capture,
        once: false,
        passive: false,
        id,
    }
}

fn view(direction: Direction, is_index: bool, key_only: bool, positioned: bool) -> CursorView {
    CursorView {
        cursor_id: 1,
        txn_id: 1,
        request_id: 1,
        direction,
        key_only,
        is_index,
        key_path: KeyPath::Empty,
        current: if positioned {
            Some(CursorRowView {
                key: vec![1],
                primary_key: vec![1],
                value: None,
            })
        } else {
            None
        },
        pending: false,
    }
}

#[test]
fn dom_exception_codes_follow_the_legacy_table() {
    assert_eq!(dom_exception_code("NotFoundError"), 8);
    assert_eq!(dom_exception_code("DataCloneError"), 25);
    assert_eq!(dom_exception_code("QuotaExceededError"), 22);
    assert_eq!(dom_exception_code("ConstraintError"), 0);
    assert_eq!(dom_exception_code("notfounderror"), 0);
    let e = DomException::new("InvalidStateError".to_string(), "m".to_string());
    assert_eq!((e.name.as_str(), e.message.as_str(), e.code), ("InvalidStateError", "m", 11));
    let e = exception_for(&IdbError::Abort, "aborted".to_string());
    assert_eq!((e.name.as_str(), e.code), ("AbortError", 20));
}

#[test]
fn string_list_reads() {
    let list = DomStringListData::new(vec!["a".to_string(), "b".to_string()]);
    assert_eq!(list.length(), 2);
    assert_eq!(list.item(1), Some("b"));
    assert_eq!(list.item(2), None);
    assert!(list.contains("a"));
    assert!(!list.contains("c"));
    let _io = IoRuntime::new();
    let _io2 = IoRuntime::default();
}

#[test]
fn memo_counter_counts_up() {
    let mut m = MemoCounter::new();
    assert_eq!(m.next(), 0);
    assert_eq!(m.next(), 1);
}

#[test]
fn listeners_are_deduplicated_and_removed() {
    let mut l = Vec::new();
    assert!(add_listener(&mut l, listener("success", 1, false, 0)));
    assert!(!add_listener(&mut l, listener("success", 1, false, 1)));
    assert!(add_listener(&mut l, listener("success", 1, true, 1)));
    assert!(add_listener(&mut l, listener("error", 2, false, 2)));
    assert_eq!(next_listener_id(&l), 3);
    assert_eq!(snapshot_listeners(&l, "success"), vec![(0, 1, false), (1, 1, false)]);
    assert_eq!(
        snapshot_listeners_full(&l, "success"),
        vec![(0, 1, false, false), (1, 1, true, false)]
    );
    remove_listener(&mut l, "success", 1, false);
    assert_eq!(snapshot_listeners(&l, "success"), vec![(1, 1, false)]);
    remove_listener_by_id(&mut l, 2);
    assert!(snapshot_listeners(&l, "error").is_empty());
    assert_eq!(next_listener_id(&Vec::new()), 0);
}

#[test]
fn active_transaction_guard() {
    assert_eq!(active_txn_id(Some((4, true, false, false))).unwrap(), 4);
    assert!(matches!(
        active_txn_id(Some((4, false, false, false))),
        Err(ApiError::Idb(IdbError::TransactionInactive))
    ));
    assert!(matches!(
        active_txn_id(Some((4, true, false, true))),
        Err(ApiError::Idb(IdbError::TransactionInactive))
    ));
    assert!(matches!(active_txn_id(None), Err(ApiError::Type(_))));
    assert_eq!(count_limit(0), None);
    assert_eq!(count_limit(3), Some(3));
}

#[test]
fn live_handle_guards() {
    let mut d = DriverState::new();
    let meta = DatabaseMeta {
        name: "db".to_string(),
        version: 1,
        stores: vec![
            StoreMeta {
                id: 1,
                name: "a".to_string(),
                key_path: KeyPath::Empty,
                auto_increment: false,
                indexes: vec![IndexMeta {
                    id: 3,
                    store_id: 1,
                    name: "i".to_string(),
                    key_path: KeyPath::Single("x".to_string()),
                    unique: false,
                    multi_entry: false,
                    deleted: false,
                }],
                deleted: false,
            },
            StoreMeta {
                id: 2,
                name: "b".to_string(),
                key_path: KeyPath::Empty,
                auto_increment: false,
                indexes: vec![],
                deleted: true,
            },
        ],
        next_store_id: 3,
        next_index_id: 4,
    };
    d.install_upgrade_txn(5, 1, "db".to_string(), meta);
    assert!(d.require_live_store(5, false, true, 1).is_ok());
    assert!(matches!(
        d.require_live_store(5, false, true, 2),
        Err(IdbError::InvalidState(_))
    ));
    assert!(matches!(
        d.require_live_store(5, true, true, 1),
        Err(IdbError::InvalidState(_))
    ));
    assert!(d.require_live_store(5, true, false, 2).is_ok());
    assert!(d.require_live_index(5, false, true, 1, 3).is_ok());
    assert!(d.require_live_index(5, false, true, 1, 4).is_err());

    // Cursors.
    assert!(matches!(
        d.require_live_cursor(1, 5),
        Err(IdbError::InvalidState(_))
    ));
    d.install_cursor(
        1,
        5,
        10,
        SourceRef::Index { store: 1, index: 3 },
        Direction::Next,
        false,
        vec![CursorRow {
            key: vec![1],
            primary_key: vec![2],
            value: Some(vec![3]),
        }],
    );
    assert!(d.require_live_cursor(1, 5).is_ok());
    assert!(matches!(
        d.require_live_cursor(1, 6),
        Err(IdbError::TransactionInactive)
    ));
    let v = d.cursor_view(1).unwrap();
    assert!(v.is_index);
    assert_eq!(v.current.as_ref().unwrap().primary_key, vec![2]);
    assert_eq!(d.cursor_write_target(1).unwrap(), (1, vec![2]));
    assert_eq!(d.cursor_open_info(1), Some((Direction::Next, false, false)));
    d.set_cursor_pending(1, true);
    assert!(d.cursor_view(1).unwrap().pending);
    assert_eq!(
        d.navigate_cursor(1, &boa_idb::cursor::CursorAction::Continue(None))
            .unwrap(),
        true
    );
    assert!(matches!(
        d.cursor_write_target(1),
        Err(IdbError::InvalidState(_))
    ));
    assert!(matches!(
        d.navigate_cursor(9, &boa_idb::cursor::CursorAction::Continue(None)),
        Err(IdbError::InvalidState(_))
    ));
}

#[test]
fn transaction_arguments() {
    let names = vec!["a".to_string()];
    assert!(matches!(
        transaction_args(true, &names, None, None),
        Err(ApiError::Idb(IdbError::InvalidState(_)))
    ));
    assert!(matches!(
        transaction_args(false, &Vec::new(), None, None),
        Err(ApiError::Idb(IdbError::InvalidAccess(_)))
    ));
    assert_eq!(
        transaction_args(false, &names, None, None).unwrap(),
        (TxnMode::ReadOnly, Durability::Default)
    );
    assert_eq!(
        transaction_args(false, &names, Some("readwrite"), Some("relaxed")).unwrap(),
        (TxnMode::ReadWrite, Durability::Relaxed)
    );
    assert!(matches!(
        transaction_args(false, &names, Some("versionchange"), None),
        Err(ApiError::Type(_))
    ));
    assert!(matches!(
        transaction_args(false, &names, None, Some("fast")),
        Err(ApiError::Type(_))
    ));
    assert!(connection_open_check(false).is_ok());
    assert!(connection_open_check(true).is_err());
    assert_eq!(schema_txn_of(Some(3), "createObjectStore").unwrap(), 3);
    match schema_txn_of(None, "createObjectStore") {
        Err(IdbError::InvalidState(m)) => {
            assert_eq!(m, "createObjectStore requires a versionchange transaction.")
        }
        other => panic!("unexpected {other:?}"),
    }
    assert!(abort_check(true, false, false).is_ok());
    assert!(abort_check(true, true, false).is_err());
    assert_eq!(durability_name(Durability::Strict), "strict");
}

#[test]
fn scope_resolves_live_store_names() {
    let stores = vec![
        StoreMeta {
            id: 1,
            name: "a".to_string(),
            key_path: KeyPath::Empty,
            auto_increment: false,
            indexes: vec![],
            deleted: true,
        },
        StoreMeta {
            id: 2,
            name: "a".to_string(),
            key_path: KeyPath::Empty,
            auto_increment: false,
            indexes: vec![],
            deleted: false,
        },
    ];
    assert_eq!(resolve_scope(&stores, &vec!["a".to_string()]).unwrap(), vec![2]);
    match resolve_scope(&stores, &vec!["a".to_string(), "b".to_string()]) {
        Err(IdbError::NotFound(m)) => assert_eq!(m, "Object store 'b' not found"),
        other => panic!("unexpected {other:?}"),
    }
}

#[test]
fn put_key_rules() {
    let inline = Some(KeyPath::Single("id".to_string()));
    let empty = Some(KeyPath::Empty);
    assert!(put_key_check(&inline, true, &KeyProbe::Key, false).is_err());
    assert!(put_key_check(&None, true, &KeyProbe::NoKey, false).is_ok());
    assert!(put_key_check(&inline, false, &KeyProbe::Key, false).is_ok());
    assert!(put_key_check(&inline, false, &KeyProbe::NoKey, true).is_ok());
    assert!(put_key_check(&inline, false, &KeyProbe::NoKey, false).is_err());
    match put_key_check(&inline, false, &KeyProbe::Invalid("NaN".to_string()), true) {
        Err(IdbError::Data(m)) => assert_eq!(m, "Invalid inline key: NaN"),
        other => panic!("unexpected {other:?}"),
    }
    assert!(put_key_check(&empty, false, &KeyProbe::Invalid("x".to_string()), true).is_ok());
    assert!(put_key_check(&empty, false, &KeyProbe::NoKey, false).is_err());
    assert!(put_key_check(&None, false, &KeyProbe::NoKey, false).is_err());
    assert!(put_key_check(&None, false, &KeyProbe::NoKey, true).is_ok());
    assert!(matches!(
        require_readwrite(Some(TxnMode::ReadOnly)),
        Err(IdbError::ReadOnly)
    ));
    assert!(require_readwrite(Some(TxnMode::ReadWrite)).is_ok());
}

#[test]
fn cursor_method_guards() {
    assert!(require_position(&view(Direction::Next, true, false, true)).is_ok());
    assert!(matches!(
        require_position(&view(Direction::Next, true, false, false)),
        Err(IdbError::InvalidState(_))
    ));
    let mut busy = view(Direction::Next, true, false, true);
    busy.pending = true;
    match require_position(&busy) {
        Err(IdbError::InvalidState(m)) => assert_eq!(m, "The cursor is being iterated."),
        other => panic!("unexpected {other:?}"),
    }
    assert!(advance_count_check(0).is_err());
    assert!(advance_count_check(1).is_ok());
    assert!(continue_primary_key_check(&view(Direction::Prev, true, false, true)).is_ok());
    assert!(matches!(
        continue_primary_key_check(&view(Direction::NextUnique, true, false, true)),
        Err(IdbError::InvalidAccess(_))
    ));
    assert!(matches!(
        continue_primary_key_check(&view(Direction::Next, false, false, true)),
        Err(IdbError::InvalidAccess(_))
    ));
    assert!(matches!(
        cursor_write_check(&view(Direction::Next, false, true, true), false),
        Err(IdbError::InvalidState(_))
    ));
    assert!(matches!(
        cursor_write_check(&view(Direction::Next, false, false, true), true),
        Err(IdbError::ReadOnly)
    ));
    assert!(cursor_write_check(&view(Direction::Next, false, false, true), false).is_ok());
}

#[test]
fn cursor_update_keys_and_row_limits() {
    assert_eq!(cursor_update_key(false, None, &vec![4]).unwrap(), Some(vec![4]));
    assert_eq!(cursor_update_key(true, Some(vec![4]), &vec![4]).unwrap(), None);
    assert!(matches!(
        cursor_update_key(true, Some(vec![5]), &vec![4]),
        Err(IdbError::Data(_))
    ));
    assert_eq!(cursor_update_key(true, None, &vec![4]).unwrap(), None);
    let rows: Vec<CursorRow> = (0u8..5)
        .map(|i| CursorRow {
            key: vec![i],
            primary_key: vec![i],
            value: None,
        })
        .collect();
    assert_eq!(truncate_rows(rows.clone(), Some(2)).len(), 2);
    assert_eq!(truncate_rows(rows.clone(), Some(9)).len(), 5);
    assert_eq!(truncate_rows(rows, None).len(), 5);
}

#[test]
fn event_flags_follow_cancelable() {
    let mut e = EventData::new("error".to_string(), true, false);
    assert_eq!(e.event_phase, NONE);
    e.prevent_default();
    assert!(!e.default_prevented);
    let mut e = EventData::new("error".to_string(), true, true);
    e.prevent_default();
    assert!(e.default_prevented);
    e.stop_immediate_propagation();
    assert!(e.propagation_stopped && e.immediate_propagation_stopped);
}

#[test]
fn dispatch_walks_capture_target_bubble() {
    let e = EventData::new("abort".to_string(), true, false);
    let mut d = Dispatch::new(2, true);
    let mut seen = Vec::new();
    loop {
        match d.step(&e) {
            DispatchStep::Visit(v) => seen.push((v.node, v.phase, v.capture)),
            DispatchStep::Finish { reset } => {
                assert!(reset);
                break;
            }
        }
    }
    assert_eq!(
        seen,
        vec![
            (PathNode::Ancestor(1), CAPTURING_PHASE, Some(true)),
            (PathNode::Ancestor(0), CAPTURING_PHASE, Some(true)),
            (PathNode::Target, AT_TARGET, None),
            (PathNode::Ancestor(0), BUBBLING_PHASE, Some(false)),
            (PathNode::Ancestor(1), BUBBLING_PHASE, Some(false)),
        ]
    );
    // A non-bubbling event stops at the target.
    let mut d = Dispatch::new(2, false);
    let mut n = 0;
    while let DispatchStep::Visit(_) = d.step(&e) {
        n += 1;
    }
    assert_eq!(n, 3);
    // Stopped propagation finishes without a reset.
    let mut stopped = EventData::new("abort".to_string(), true, false);
    stopped.stop_propagation();
    let mut d = Dispatch::new(2, true);
    assert_eq!(d.step(&stopped), DispatchStep::Finish { reset: false });
}

#[test]
fn phase_listeners_filter_by_capture() {
    let snapshot = vec![(0, 10, true, false), (1, 11, false, true), (2, 12, true, true)];
    assert_eq!(phase_listeners(&snapshot, Some(true)), vec![(0, 10, false), (2, 12, true)]);
    assert_eq!(phase_listeners(&snapshot, Some(false)), vec![(1, 11, true)]);
    assert_eq!(phase_listeners(&snapshot, None).len(), 3);
}

#[test]
fn factory_open_version_rules() {
    assert_eq!(open_version(None).unwrap(), 0);
    assert_eq!(open_version(Some(5)).unwrap(), 5);
    assert!(matches!(open_version(Some(0)), Err(ApiError::Type(_))));
}

#[test]
fn only_error_events_are_cancelable() {

    assert!(event_cancelable("error"));
    assert!(!event_cancelable("success"));
    assert!(!event_cancelable("Error"));
}

#[test]
fn pending_requests_hide_their_result() {
    assert!(matches!(
        result_readable(ReadyState::Pending),
        Err(IdbError::InvalidState(_))
    ));
    assert!(result_readable(ReadyState::Done).is_ok());
    assert_eq!(ready_state_name(ReadyState::Pending), "pending");
    assert_eq!(ready_state_name(ReadyState::Done), "done");
    assert!(error_aborts_transaction(false, false));
    assert!(!error_aborts_transaction(true, false));
    assert!(!error_aborts_transaction(false, true));
}

#[test]
fn refusal_messages() {
    let names = vec!["a".to_string()];
    match transaction_args(false, &names, Some("versionchange"), Some("fast")) {
        Err(ApiError::Type(m)) => assert_eq!(m, "Invalid transaction mode 'versionchange'"),
        other => panic!("unexpected {other:?}"),
    }
    match transaction_args(false, &names, Some("readonly"), Some("fast")) {
        Err(ApiError::Type(m)) => assert_eq!(m, "Invalid durability 'fast'"),
        other => panic!("unexpected {other:?}"),
    }
    let inline = Some(KeyPath::Single("id".to_string()));
    let empty = Some(KeyPath::Empty);
    match put_key_check(&inline, false, &KeyProbe::Invalid("NaN".to_string()), true) {
        Err(IdbError::Data(m)) => assert_eq!(m, "Invalid inline key: NaN"),
        other => panic!("unexpected {other:?}"),
    }
    match put_key_check(&empty, false, &KeyProbe::Invalid("NaN".to_string()), false) {
        Err(IdbError::Data(m)) => assert_eq!(m, "Invalid key: NaN"),
        other => panic!("unexpected {other:?}"),
    }
    match put_key_check(&None, false, &KeyProbe::NoKey, false) {
        Err(IdbError::Data(m)) => assert_eq!(m, "No key provided and autoIncrement is disabled"),
        other => panic!("unexpected {other:?}"),
    }
    match advance_count_check(0) {
        Err(ApiError::Type(m)) => assert_eq!(m, "advance count must not be 0"),
        other => panic!("unexpected {other:?}"),
    }
    match active_txn_id(None) {
        Err(ApiError::Type(m)) => assert_eq!(m, "Transaction object expected"),
        other => panic!("unexpected {other:?}"),
    }
    match open_version(Some(0)) {
        Err(ApiError::Type(m)) => assert_eq!(m, "The version provided must not be 0."),
        other => panic!("unexpected {other:?}"),
    }
}

#[test]
fn listener_run_stops_on_immediate_propagation() {
    let mut run = ListenerRun::new(vec![(1, 10, false), (2, 20, true), (3, 30, false)]);
    assert_eq!(run.step(false), ListenerStep::Invoke { id: 1, callback: 10, remove: false });
    assert_eq!(run.step(false), ListenerStep::Invoke { id: 2, callback: 20, remove: true });
    assert_eq!(run.step(true), ListenerStep::Done);
    let mut all = ListenerRun::new(vec![(4, 40, false)]);
    assert_eq!(all.step(false), ListenerStep::Invoke { id: 4, callback: 40, remove: false });
    assert_eq!(all.step(false), ListenerStep::Done);
}

#[test]
fn store_names_sort_by_utf16_code_units() {
    let names = vec![
        "b".to_string(),
        "\u{FF5E}".to_string(),
        "a".to_string(),
        "\u{1F600}".to_string(),
        "b".to_string(),
    ];
    let sorted = sort_by_code_units(&names);
    assert_eq!(sorted, vec!["a", "b", "b", "\u{1F600}", "\u{FF5E}"]);
    assert_eq!(utf16_units("a\u{1F600}"), vec![0x61, 0xD83D, 0xDE00]);
    assert!(sort_by_code_units(&Vec::new()).is_empty());
}
