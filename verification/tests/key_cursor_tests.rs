use boa_idb::cursor::{
    apply_cursor_action, check_continue_key, check_continue_primary_key, CursorAction, CursorRow,
    CursorState,
};
use boa_idb::error::IdbError;
use boa_idb::key::{compare_encoded_keys, distinct_index_keys, KeyOrder};
use boa_idb::key_range::{range_data_of, IdBKeyRange, RangeData};
use boa_idb::proto::{direction_name, parse_direction_name, store_of, Direction, SourceRef};

fn row(key: &[u8], pk: &[u8]) -> CursorRow {
    CursorRow {
        key: key.to_vec(),
        primary_key: pk.to_vec(),
        value: None,
    }
}

fn cursor(direction: Direction, rows: Vec<CursorRow>) -> CursorState {
    CursorState {
        cursor_id: 1,
        txn_id: 2,
        request_id: 3,
        source: SourceRef::Index { store: 4, index: 5 },
        direction,
        key_only: false,
        rows,
        pos: 0,
        pending: false,
    }
}

#[test]
fn encoded_keys_compare_bytewise() {
    assert_eq!(compare_encoded_keys(&[1, 2], &[1, 3]), KeyOrder::Less);
    assert_eq!(compare_encoded_keys(&[1, 2], &[1, 2]), KeyOrder::Equal);
    assert_eq!(compare_encoded_keys(&[2], &[1, 9, 9]), KeyOrder::Greater);
    // A proper prefix sorts first.
    assert_eq!(compare_encoded_keys(&[1], &[1, 0]), KeyOrder::Less);
    assert_eq!(compare_encoded_keys(&[], &[]), KeyOrder::Equal);
}

#[test]
fn key_range_bound_rejects_inverted_bounds() {
    let r = IdBKeyRange::bound(vec![5], vec![3], false, false);
    assert!(matches!(r, Err(IdbError::Data(_))));
    match IdBKeyRange::bound(vec![3], vec![3], true, false) {
        Err(IdbError::Data(m)) => {
            assert_eq!(m, "The lower and upper keys are equal and one of the bounds is open")
        }
        other => panic!("unexpected {other:?}"),
    }
    assert!(matches!(
        IdBKeyRange::bound(vec![3], vec![3], false, true),
        Err(IdbError::Data(_))
    ));
    let r = IdBKeyRange::bound(vec![3], vec![3], false, false).unwrap();
    assert!(r.includes(&[3]));
    assert!(!r.includes(&[4]));
}

#[test]
fn key_range_includes_respects_open_bounds() {
    let r = IdBKeyRange::bound(vec![2], vec![4], true, false).unwrap();
    assert!(!r.includes(&[2]));
    assert!(r.includes(&[3]));
    assert!(r.includes(&[4]));
    assert!(!r.includes(&[4, 0]));
    let lower = IdBKeyRange::lower_bound(vec![2], false);
    assert!(lower.includes(&[2]));
    assert!(lower.includes(&[200]));
    assert!(!lower.includes(&[1, 255]));
    let upper = IdBKeyRange::upper_bound(vec![2], true);
    assert!(!upper.includes(&[2]));
    assert!(upper.includes(&[1]));
}

#[test]
fn key_range_only_holds_one_key() {
    let r = IdBKeyRange::only(vec![7, 7]);
    assert!(r.includes(&[7, 7]));
    assert!(!r.includes(&[7]));
    assert!(!r.includes(&[7, 7, 0]));
}

#[test]
fn range_data_keeps_membership() {
    let all = range_data_of(&IdBKeyRange::new(None, None, false, false));
    assert!(matches!(all, RangeData::All));
    let some = range_data_of(&IdBKeyRange::lower_bound(vec![1], true));
    match some {
        RangeData::Bounds { lower, upper } => {
            assert_eq!(lower, Some((vec![1], true)));
            assert_eq!(upper, None);
        }
        _ => panic!("expected bounds"),
    }
}

#[test]
fn direction_names_round_trip() {
    for d in [
        Direction::Next,
        Direction::NextUnique,
        Direction::Prev,
        Direction::PrevUnique,
    ] {
        assert_eq!(parse_direction_name(direction_name(d)), Some(d));
    }
    assert_eq!(parse_direction_name("sideways"), None);
    assert_eq!(store_of(SourceRef::Index { store: 9, index: 1 }), 9);
    assert_eq!(store_of(SourceRef::Store(4)), 4);
}

#[test]
fn cursor_continue_and_advance_move_forward() {
    let mut c = cursor(
        Direction::Next,
        vec![row(&[1], &[1]), row(&[2], &[1]), row(&[3], &[1])],
    );
    assert!(apply_cursor_action(&mut c, &CursorAction::Continue(None)));
    assert_eq!(c.pos, 1);
    assert!(!apply_cursor_action(&mut c, &CursorAction::Advance(2)));
    assert_eq!(c.pos, 3);
    assert!(c.current().is_none());
}

#[test]
fn cursor_advance_saturates() {
    let mut c = cursor(Direction::Next, vec![row(&[1], &[1])]);
    c.pos = usize::MAX - 1;
    assert!(!apply_cursor_action(&mut c, &CursorAction::Advance(10)));
    assert_eq!(c.pos, usize::MAX);
}

#[test]
fn cursor_continue_to_key_seeks_first_fit() {
    let rows = vec![row(&[1], &[0]), row(&[3], &[0]), row(&[5], &[0]), row(&[7], &[0])];
    let mut c = cursor(Direction::Next, rows);
    assert!(apply_cursor_action(&mut c, &CursorAction::Continue(Some(vec![4]))));
    assert_eq!(c.pos, 2);
    assert!(!apply_cursor_action(&mut c, &CursorAction::Continue(Some(vec![9]))));
    assert_eq!(c.pos, 4);

    // Rows of a `prev` cursor come in descending order.
    let rows = vec![row(&[7], &[0]), row(&[5], &[0]), row(&[3], &[0])];
    let mut c = cursor(Direction::Prev, rows);
    assert!(apply_cursor_action(&mut c, &CursorAction::Continue(Some(vec![4]))));
    assert_eq!(c.pos, 2);
}

#[test]
fn cursor_continue_primary_key_uses_tuple_order() {
    let rows = vec![
        row(&[1], &[1]),
        row(&[2], &[1]),
        row(&[2], &[5]),
        row(&[3], &[0]),
    ];
    let mut c = cursor(Direction::Next, rows);
    let action = CursorAction::ContinuePrimaryKey {
        key: vec![2],
        primary_key: vec![3],
    };
    assert!(apply_cursor_action(&mut c, &action));
    assert_eq!(c.pos, 2);
}

#[test]
fn cursor_update_and_delete_stay() {
    let mut c = cursor(Direction::Next, vec![row(&[1], &[1]), row(&[2], &[2])]);
    assert!(apply_cursor_action(&mut c, &CursorAction::Update(vec![9])));
    assert!(apply_cursor_action(&mut c, &CursorAction::Delete));
    assert_eq!(c.pos, 0);
}

#[test]
fn continue_key_must_move_in_direction() {
    assert!(check_continue_key(Direction::Next, &[2], &[3]).is_ok());
    assert!(matches!(
        check_continue_key(Direction::Next, &[2], &[2]),
        Err(IdbError::Data(_))
    ));
    assert!(check_continue_key(Direction::NextUnique, &[2], &[2]).is_err());
    assert!(check_continue_key(Direction::NextUnique, &[2], &[3]).is_ok());
    assert!(check_continue_key(Direction::Prev, &[2], &[1]).is_ok());
    assert!(check_continue_key(Direction::Prev, &[2], &[3]).is_err());
    assert!(check_continue_key(Direction::PrevUnique, &[2], &[2]).is_err());
    assert!(check_continue_key(Direction::PrevUnique, &[2], &[1]).is_ok());
}

#[test]
fn continue_primary_key_target_must_advance() {
    let current = row(&[2], &[5]);
    assert!(check_continue_primary_key(Direction::Next, Some(&current), &[2], &[6]).is_ok());
    assert!(matches!(
        check_continue_primary_key(Direction::Next, Some(&current), &[2], &[5]),
        Err(IdbError::Data(_))
    ));
    assert!(check_continue_primary_key(Direction::Prev, Some(&current), &[1], &[9]).is_ok());
    assert!(check_continue_primary_key(Direction::NextUnique, Some(&current), &[3], &[0]).is_err());
    assert!(check_continue_primary_key(Direction::Next, None, &[0], &[0]).is_ok());
}

#[test]
fn index_keys_drop_repeats_in_order() {

    let keys = vec![vec![2], vec![1], vec![2], vec![3], vec![1]];
    assert_eq!(distinct_index_keys(&keys), vec![vec![2], vec![1], vec![3]]);
    assert!(distinct_index_keys(&Vec::new()).is_empty());
}
