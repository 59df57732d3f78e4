//! Cursor bookkeeping of the driver: registering a materialized cursor,
//! moving it, the owned snapshot the API objects read, and the decisions
//! taken before a cursor `update()` or `delete()` reaches the store.

use vstd::prelude::*;

use crate::cursor::{apply_cursor_action, moves_to, CursorAction, CursorRow, CursorState};
use crate::driver::DriverState;
use crate::error::{message_of, IdbError};
use crate::proto::{spec_store_of, store_of, Direction, SourceRef};
use crate::schema::{find_store_by_id, KeyPath, KeyPathView, StoreMeta};
use crate::upgrade::{first_store_with_id, lemma_first_store_with_id};

verus! {

broadcast use vstd::std_specs::hash::group_hash_axioms;

/// Owned copy of a cursor row for the API layer.
#[derive(Debug, Clone)]
pub struct CursorRowView {
    pub key: Vec<u8>,
    pub primary_key: Vec<u8>,
    pub value: Option<Vec<u8>>,
}

/// Snapshot of a cursor for the API layer.
#[derive(Debug, Clone)]
pub struct CursorView {
    pub cursor_id: u64,
    pub txn_id: u64,
    pub request_id: u64,
    pub direction: Direction,
    pub key_only: bool,
    /// The source is an index.
    pub is_index: bool,
    /// Key path of the source object store.
    pub key_path: KeyPath,
    /// Current row (`None`: exhausted).
    pub current: Option<CursorRowView>,
    /// A navigation request is pending.
    pub pending: bool,
}

pub open spec fn opt_bytes(o: Option<Vec<u8>>) -> Option<Seq<u8>> {
    match o {
        Some(v) => Some(v@),
        None => None,
    }
}

/// The row view holds the same bytes as the row.
pub open spec fn row_copied(v: CursorRowView, row: CursorRow) -> bool {
    &&& v.key@ == row.key@
    &&& v.primary_key@ == row.primary_key@
    &&& opt_bytes(v.value) == opt_bytes(row.value)
}

fn copy_opt(o: &Option<Vec<u8>>) -> (r: Option<Vec<u8>>)
    ensures
        opt_bytes(r) == opt_bytes(*o),
{
    match o {
        Some(v) => Some(v.clone()),
        None => None,
    }
}

/// Key path of the first store with id `store_id` in a snapshot, or the
/// empty key path when there is none.
pub open spec fn store_key_path(stores: Seq<StoreMeta>, store_id: u64) -> KeyPathView {
    let i = first_store_with_id(stores, store_id);
    if i < stores.len() {
        stores[i].key_path@
    } else {
        KeyPathView::Empty
    }
}

/// The snapshot's store `store_id` keeps its keys in line: it has a key
/// path, or it is not in the snapshot at all.
pub open spec fn spec_has_key_path(stores: Seq<StoreMeta>, store_id: u64) -> bool {
    let i = first_store_with_id(stores, store_id);
    i < stores.len() ==> !(stores[i].key_path is Empty)
}

/// Whether store `store_id` of `stores` has a key path (an unknown store
/// counts as having one).
pub fn store_has_key_path(stores: &Vec<StoreMeta>, store_id: u64) -> (r: bool)
    ensures
        r == spec_has_key_path(stores@, store_id),
{
    match find_store_by_id(stores, store_id) {
        Some(i) => {
            proof {
                lemma_first_store_with_id(stores@, store_id, i as int);
            }
            match &stores[i].key_path {
                KeyPath::Empty => false,
                _ => true,
            }
        },
        None => {
            proof {
                lemma_first_store_with_id(stores@, store_id, stores@.len() as int);
            }
            true
        },
    }
}

/// A copy of the metadata of the first store with id `store_id` of a
/// snapshot, deleted or not (a request queued before `deleteObjectStore`
/// still runs against it).
pub fn op_store_meta(stores: &Vec<StoreMeta>, store_id: u64) -> (r: Result<StoreMeta, IdbError>)
    ensures
        ({
            let i = first_store_with_id(stores@, store_id);
            match r {
                Ok(m) => i < stores@.len() && m@ == stores@[i]@,
                Err(e) => i == stores@.len() && e is NotFound && message_of(e) == "Object store not found"@,
            }
        }),
{
    match find_store_by_id(stores, store_id) {
        Some(i) => {
            proof {
                lemma_first_store_with_id(stores@, store_id, i as int);
            }
            Ok(stores[i].duplicate())
        },
        None => {
            proof {
                lemma_first_store_with_id(stores@, store_id, stores@.len() as int);
            }
            Err(IdbError::NotFound("Object store not found".to_string()))
        },
    }
}

/// The explicit key a cursor `update(value)` passes to the store.
///
/// A store with a key path takes the key from the value (`extracted`, the
/// key found at the key path, if any), which must then equal the cursor's
/// primary key; a store without one gets the primary key explicitly.
pub fn cursor_update_key(has_key_path: bool, extracted: Option<Vec<u8>>, primary_key: &Vec<u8>) -> (r: Result<Option<Vec<u8>>, IdbError>)
    ensures
        has_key_path ==> match r {
            Ok(k) => k is None && (extracted matches Some(x) ==> x@ == primary_key@),
            Err(e) => e is Data && (extracted matches Some(x) && x@ != primary_key@)
                && message_of(e) == "Cursor update changes the in-line key"@,
        },
        !has_key_path ==> (r matches Ok(Some(k)) && k@ == primary_key@),
{
    if has_key_path {
        match extracted {
            Some(k) => {
                if crate::text::bytes_eq(k.as_slice(), primary_key.as_slice()) {
                    Ok(None)
                } else {
                    Err(IdbError::Data("Cursor update changes the in-line key".to_string()))
                }
            },
            None => Ok(None),
        }
    } else {
        Ok(Some(primary_key.clone()))
    }
}

/// Rows of `getAllRecords`, cut to `limit` when one is given.
pub fn truncate_rows(rows: Vec<CursorRow>, limit: Option<u32>) -> (r: Vec<CursorRow>)
    ensures
        r@ == match limit {
            Some(n) => if (n as int) < rows@.len() { rows@.take(n as int) } else { rows@ },
            None => rows@,
        },
{
    let mut rows = rows;
    match limit {
        Some(n) => {
            rows.truncate(n as usize);
        },
        None => {},
    }
    rows
}

impl DriverState {
    /// Registers a freshly materialized cursor at its first row.
    pub fn install_cursor(
        &mut self,
        cursor_id: u64,
        txn_id: u64,
        request_id: u64,
        source: SourceRef,
        direction: Direction,
        key_only: bool,
        rows: Vec<CursorRow>,
    )
        ensures
            final(self).cursors@ == old(self).cursors@.insert(cursor_id, CursorState {
                cursor_id,
                txn_id,
                request_id,
                source,
                direction,
                key_only,
                rows,
                pos: 0,
                pending: false,
            }),
            final(self).txns@ == old(self).txns@,
            final(self).txn_queues@ == old(self).txn_queues@,
            final(self).ops@ == old(self).ops@,
            final(self).txn_of_request@ == old(self).txn_of_request@,
            final(self).next_cursor_id == old(self).next_cursor_id,
    {
        let state = CursorState {
            cursor_id,
            txn_id,
            request_id,
            source,
            direction,
            key_only,
            rows,
            pos: 0,
            pending: false,
        };
        self.cursors.insert(cursor_id, state);
    }

    /// Moves cursor `cursor_id` by `action`; returns whether it ran past
    /// its last row. `InvalidState` when the cursor is unknown.
    pub fn navigate_cursor(&mut self, cursor_id: u64, action: &CursorAction) -> (r: Result<bool, IdbError>)
        ensures
            final(self).txns@ == old(self).txns@,
            final(self).txn_queues@ == old(self).txn_queues@,
            final(self).ops@ == old(self).ops@,
            final(self).txn_of_request@ == old(self).txn_of_request@,
            !old(self).cursors@.contains_key(cursor_id) ==> (r matches Err(e) && e is InvalidState
                && message_of(e) == "cursor not found"@) && final(self).cursors@ == old(self).cursors@,
            old(self).cursors@.contains_key(cursor_id) ==> {
                let c = old(self).cursors@[cursor_id];
                let n = final(self).cursors@[cursor_id];
                &&& final(self).cursors@ == old(self).cursors@.insert(cursor_id, n)
                &&& n.same_but_pos(c)
                &&& moves_to(c, *action, n.pos)
                &&& r == Ok::<bool, IdbError>(n.pos >= n.rows@.len())
            },
    {
        match self.cursors.remove(&cursor_id) {
            Some(mut state) => {
                let more = apply_cursor_action(&mut state, action);
                self.cursors.insert(cursor_id, state);
                Ok(!more)
            },
            None => Err(IdbError::InvalidState("cursor not found".to_string())),
        }
    }

    /// Marks cursor `cursor_id`, if live, as waiting (or no longer
    /// waiting) for its request to complete.
    pub fn set_cursor_pending(&mut self, cursor_id: u64, pending: bool)
        ensures
            old(self).cursors@.contains_key(cursor_id) ==> final(self).cursors@ == old(self).cursors@.insert(
                cursor_id,
                CursorState { pending, ..old(self).cursors@[cursor_id] },
            ),
            !old(self).cursors@.contains_key(cursor_id) ==> final(self).cursors@ == old(self).cursors@,
            final(self).txns@ == old(self).txns@,
            final(self).txn_queues@ == old(self).txn_queues@,
            final(self).ops@ == old(self).ops@,
            final(self).txn_of_request@ == old(self).txn_of_request@,
    {
        match self.cursors.remove(&cursor_id) {
            Some(mut state) => {
                state.pending = pending;
                self.cursors.insert(cursor_id, state);
            },
            None => {},
        }
    }

    /// The store and primary key a cursor `update()` or `delete()` acts
    /// on: `InvalidState` for an unknown or exhausted cursor.
    pub fn cursor_write_target(&self, cursor_id: u64) -> (r: Result<(u64, Vec<u8>), IdbError>)
        ensures
            match r {
                Ok((store_id, pk)) => {
                    let c = self.cursors@[cursor_id];
                    &&& self.cursors@.contains_key(cursor_id)
                    &&& c.pos < c.rows@.len()
                    &&& store_id == spec_store_of(c.source)
                    &&& pk@ == c.rows@[c.pos as int].primary_key@
                },
                Err(e) => e is InvalidState && if !self.cursors@.contains_key(cursor_id) {
                    message_of(e) == "cursor not found"@
                } else {
                    self.cursors@[cursor_id].pos >= self.cursors@[cursor_id].rows@.len() && message_of(e) == "cursor at end"@
                },
            },
    {
        let c = match self.cursors.get(&cursor_id) {
            Some(c) => c,
            None => {
                return Err(IdbError::InvalidState("cursor not found".to_string()));
            },
        };
        match c.current() {
            Some(row) => Ok((store_of(c.source), row.primary_key.clone())),
            None => Err(IdbError::InvalidState("cursor at end".to_string())),
        }
    }

    /// Direction, key-only flag and emptiness of cursor `cursor_id`, as
    /// the completion of its open request needs them.
    pub fn cursor_open_info(&self, cursor_id: u64) -> (r: Option<(Direction, bool, bool)>)
        ensures
            match r {
                Some((direction, key_only, empty)) => {
                    let c = self.cursors@[cursor_id];
                    &&& self.cursors@.contains_key(cursor_id)
                    &&& direction == c.direction
                    &&& key_only == c.key_only
                    &&& empty == (c.rows@.len() == 0)
                },
                None => !self.cursors@.contains_key(cursor_id),
            },
    {
        match self.cursors.get(&cursor_id) {
            Some(c) => Some((c.direction, c.key_only, c.rows.len() == 0)),
            None => None,
        }
    }

    /// Owned snapshot of cursor `cursor_id`, if live.
    pub fn cursor_view(&self, cursor_id: u64) -> (r: Option<CursorView>)
        ensures
            match r {
                Some(v) => {
                    let c = self.cursors@[cursor_id];
                    let kp = if self.txns@.contains_key(c.txn_id) {
                        store_key_path(self.txns@[c.txn_id].meta.stores@, spec_store_of(c.source))
                    } else {
                        KeyPathView::Empty
                    };
                    &&& self.cursors@.contains_key(cursor_id)
                    &&& v.cursor_id == cursor_id
                    &&& v.txn_id == c.txn_id
                    &&& v.request_id == c.request_id
                    &&& v.direction == c.direction
                    &&& v.key_only == c.key_only
                    &&& v.is_index == (c.source is Index)
                    &&& v.key_path@ == kp
                    &&& v.pending == c.pending
                    &&& (c.pos < c.rows@.len() <==> v.current is Some)
                    &&& (v.current matches Some(row) ==> row_copied(row, c.rows@[c.pos as int]))
                },
                None => !self.cursors@.contains_key(cursor_id),
            },
    {
        let c = match self.cursors.get(&cursor_id) {
            Some(c) => c,
            None => {
                return None;
            },
        };
        let sid = store_of(c.source);
        let key_path = match self.txns.get(&c.txn_id) {
            Some(txn) => match find_store_by_id(&txn.meta.stores, sid) {
                Some(i) => {
                    proof {
                        lemma_first_store_with_id(txn.meta.stores@, sid, i as int);
                    }
                    txn.meta.stores[i].key_path.duplicate()
                },
                None => {
                    proof {
                        lemma_first_store_with_id(txn.meta.stores@, sid, txn.meta.stores@.len() as int);
                    }
                    KeyPath::Empty
                },
            },
            None => KeyPath::Empty,
        };
        let current = match c.current() {
            Some(row) => Some(
                CursorRowView {
                    key: row.key.clone(),
                    primary_key: row.primary_key.clone(),
                    value: copy_opt(&row.value),
                },
            ),
            None => None,
        };
        let is_index = match c.source {
            SourceRef::Index { .. } => true,
            SourceRef::Store(_) => false,
        };
        Some(
            CursorView {
                cursor_id,
                txn_id: c.txn_id,
                request_id: c.request_id,
                direction: c.direction,
                key_only: c.key_only,
                is_index,
                key_path,
                current,
                pending: c.pending,
            },
        )
    }
}

} // verus!
