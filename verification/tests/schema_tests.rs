use boa_idb::driver::DriverState;
use boa_idb::error::IdbError;
use boa_idb::proto::{Durability, TxnMode};
use boa_idb::schema::{index_names, store_names, DatabaseMeta, KeyPath, StoreMeta};
use boa_idb::upgrade::tombstone_name;

fn empty_meta() -> DatabaseMeta {
    DatabaseMeta {
        name: "db".to_string(),
        version: 1,
        stores: Vec::new(),
        next_store_id: 1,
        next_index_id: 1,
    }
}

fn upgrade_state() -> (DriverState, u64) {
    let mut d = DriverState::new();
    d.install_upgrade_txn(9, 1, "db".to_string(), empty_meta());
    (d, 9)
}

fn add_store(d: &mut DriverState, txn: u64, id: u64, name: &str) -> StoreMeta {
    d.schema_check_create_store(txn, name, &None, false).unwrap();
    d.schema_add_store(txn, id, name.to_string(), KeyPath::Empty, false)
        .unwrap()
}

#[test]
fn create_store_checks_key_path_and_name() {
    let (mut d, t) = upgrade_state();
    assert!(matches!(
        d.schema_check_create_store(t, "s", &Some(KeyPath::Empty), true),
        Err(IdbError::InvalidAccess(_))
    ));
    assert!(d
        .schema_check_create_store(t, "s", &Some(KeyPath::Single("id".to_string())), true)
        .is_ok());
    let m = add_store(&mut d, t, 5, "s");
    assert_eq!(m.id, 5);
    assert_eq!(d.txns.get(&t).unwrap().meta.next_store_id, 6);
    match d.schema_check_create_store(t, "s", &None, false) {
        Err(IdbError::Constraint(msg)) => assert_eq!(msg, "Object store 's' already exists"),
        other => panic!("unexpected {other:?}"),
    }
}

#[test]
fn schema_ops_need_a_live_upgrade() {
    let mut d = DriverState::new();
    assert!(matches!(
        d.schema_check_create_store(3, "s", &None, false),
        Err(IdbError::TransactionInactive)
    ));
    let t = d
        .create_txn(
            1,
            "db".to_string(),
            TxnMode::ReadWrite,
            vec![],
            Durability::Default,
            empty_meta(),
        )
        .unwrap();
    assert!(matches!(
        d.schema_check_create_store(t, "s", &None, false),
        Err(IdbError::InvalidState(_))
    ));
}

#[test]
fn deleted_store_releases_its_name() {
    let (mut d, t) = upgrade_state();
    add_store(&mut d, t, 5, "s");
    let id = d.schema_find_store(t, "s").unwrap();
    assert_eq!(id, 5);
    assert_eq!(tombstone_name(t, id), "\u{0}boa-deleted-9-5");
    d.schema_mark_store_deleted(t, id).unwrap();
    assert!(matches!(
        d.schema_find_store(t, "s"),
        Err(IdbError::NotFound(_))
    ));
    // The name can be used again.
    add_store(&mut d, t, 6, "s");
    let h = d.txns.get(&t).unwrap();
    assert_eq!(h.deleted_store_ids, vec![5]);
    assert_eq!(store_names(&h.meta.stores), vec!["s".to_string()]);
    // A queued request still sees the deleted store by id.
    assert!(d.txn_store_view(t, 5).unwrap().deleted);
}

#[test]
fn rename_store_checks_both_names() {
    let (mut d, t) = upgrade_state();
    add_store(&mut d, t, 1, "a");
    add_store(&mut d, t, 2, "b");
    assert!(matches!(
        d.schema_check_rename_store(t, "a", "b"),
        Err(IdbError::Constraint(_))
    ));
    assert!(matches!(
        d.schema_check_rename_store(t, "zz", "c"),
        Err(IdbError::NotFound(_))
    ));
    let id = d.schema_check_rename_store(t, "a", "c").unwrap();
    d.schema_apply_rename_store(t, id, "c".to_string()).unwrap();
    assert_eq!(d.txn_store_id(t, "c").unwrap(), 1);
    assert!(d.txn_store_id(t, "a").is_err());
}

#[test]
fn index_lifecycle_in_upgrade() {
    let (mut d, t) = upgrade_state();
    add_store(&mut d, t, 1, "s");
    assert!(matches!(
        d.schema_check_create_index(t, "s", "i", &KeyPath::Array(vec!["a".to_string()]), true),
        Err(IdbError::InvalidAccess(_))
    ));
    assert!(matches!(
        d.schema_check_create_index(t, "nope", "i", &KeyPath::Empty, false),
        Err(IdbError::NotFound(_))
    ));
    let sid = d
        .schema_check_create_index(t, "s", "i", &KeyPath::Single("a".to_string()), false)
        .unwrap();
    assert_eq!(sid, 1);
    let im = d
        .schema_add_index(t, sid, 7, "i".to_string(), KeyPath::Single("a".to_string()), true, false)
        .unwrap();
    assert_eq!((im.id, im.store_id, im.unique), (7, 1, true));
    assert_eq!(d.txns.get(&t).unwrap().meta.next_index_id, 8);
    assert!(matches!(
        d.schema_check_create_index(t, "s", "i", &KeyPath::Empty, false),
        Err(IdbError::Constraint(_))
    ));
    assert_eq!(d.store_index_names(t, 1), vec!["i".to_string()]);
    assert_eq!(d.store_index_view(t, 1, "i").unwrap().id, 7);

    // Rename: the new name must be free, the old one live.
    assert!(matches!(
        d.schema_check_rename_index(t, "s", "i", "i"),
        Err(IdbError::Constraint(_))
    ));
    assert!(matches!(
        d.schema_check_rename_index(t, "s", "x", "y"),
        Err(IdbError::NotFound(_))
    ));
    let (s2, i2) = d.schema_check_rename_index(t, "s", "i", "j").unwrap();
    d.schema_apply_rename_index(t, s2, i2, "j".to_string()).unwrap();
    assert_eq!(d.store_index_names(t, 1), vec!["j".to_string()]);

    let (s3, i3) = d.schema_find_index(t, "s", "j").unwrap();
    assert_eq!((s3, i3), (1, 7));
    d.schema_mark_index_deleted(t, s3, i3).unwrap();
    assert!(d.store_index_names(t, 1).is_empty());
    assert!(matches!(
        d.schema_find_index(t, "s", "j"),
        Err(IdbError::NotFound(_))
    ));
    let h = d.txns.get(&t).unwrap();
    assert_eq!(index_names(&h.meta.stores[0].indexes), Vec::<String>::new());
}

#[test]
fn upgrade_store_names_follow_the_snapshot() {
    let (mut d, t) = upgrade_state();
    add_store(&mut d, t, 1, "a");
    add_store(&mut d, t, 2, "b");
    d.schema_mark_store_deleted(t, 1).unwrap();
    assert_eq!(d.upgrade_store_names(t), Some(vec!["b".to_string()]));
    d.mark_txn_finished(t);
    assert_eq!(d.upgrade_store_names(t), None);
    assert_eq!(d.upgrade_store_names(77), None);
}

#[test]
fn scope_limits_store_lookup_outside_upgrades() {
    let mut d = DriverState::new();
    let mut m = empty_meta();
    for (id, name) in [(1, "a"), (2, "b")] {
        m.stores.push(StoreMeta {
            id,
            name: name.to_string(),
            key_path: KeyPath::Empty,
            auto_increment: false,
            indexes: Vec::new(),
            deleted: false,
        });
    }
    let t = d
        .create_txn(1, "db".to_string(), TxnMode::ReadOnly, vec![2], Durability::Default, m)
        .unwrap();
    assert_eq!(d.txn_store_id(t, "b").unwrap(), 2);
    assert!(matches!(d.txn_store_id(t, "a"), Err(IdbError::NotFound(_))));
    assert!(matches!(d.txn_store_id(99, "a"), Err(IdbError::TransactionInactive)));
}
