//! Driver state: pending opens, transaction handles, per-transaction
//! request queues, cursors and connections, with the pure bookkeeping
//! steps the request pump performs between backend calls and event
//! dispatch.

use std::collections::HashMap;
use std::collections::VecDeque;

use vstd::prelude::*;

use crate::cursor::{CursorAction, CursorState};
use crate::key_range::RangeData;
use crate::proto::{Direction, Durability, SourceRef, TxnMode};
use crate::maps::keys_of;
use crate::text::str_eq;
use crate::schema::DatabaseMeta;

verus! {

broadcast use vstd::std_specs::hash::group_hash_axioms;

/// One queued operation against a transaction.
#[derive(Debug, Clone)]
pub enum PendingOp {
    /// Read the first matching record.
    Get { source: SourceRef, range: RangeData },
    /// Count matching records.
    Count { source: SourceRef, range: RangeData },
    /// getKey(query).
    GetKey { source: SourceRef, range: RangeData },
    /// getAll / getAllKeys.
    GetAll { source: SourceRef, range: RangeData, limit: Option<u32>, keys_only: bool },
    /// getAllRecords.
    GetAllRecords {
        source: SourceRef,
        range: RangeData,
        limit: Option<u32>,
        direction: Direction,
    },
    /// Put/add a record (encoded value, encoded explicit key).
    Put { store_id: u64, value: Vec<u8>, explicit_key: Option<Vec<u8>>, no_overwrite: bool },
    /// Delete matching records.
    Delete { store_id: u64, range: RangeData },
    /// Clear a store.
    Clear { store_id: u64 },
    /// Open a cursor.
    OpenCursor { source: SourceRef, range: RangeData, direction: Direction, key_only: bool },
    /// Operate on an already-open cursor.
    CursorOp { cursor_id: u64, action: CursorAction },
}

/// Kind of a pending database open.
#[derive(Debug, Clone, Copy, PartialEq, Eq, Structural)]
pub enum OpenKind {
    /// `IDBFactory.open`.
    Open,
    /// `IDBFactory.deleteDatabase`.
    Delete,
}

/// A pending database open / delete.
#[derive(Debug, Clone)]
pub struct PendingOpen {
    /// Kind.
    pub kind: OpenKind,
    /// Database name.
    pub name: String,
    /// Requested version (0 = delete, or resolved for opens).
    pub version: u64,
    /// Connection id for the resulting `IDBDatabase`.
    pub conn_id: u64,
    /// Request id.
    pub request_id: u64,
    /// True while an upgrade transaction is draining.
    pub upgrade_active: bool,
    /// The versionchange transaction id during an upgrade.
    pub upgrade_txn_id: Option<u64>,
    /// Registered once in the database open queue.
    pub queued: bool,
    /// Whether the `blocked` event was already fired for this open.
    pub blocked_fired: bool,
    /// Upgrade version pair once the upgrade started.
    pub upgrade_versions: Option<(u64, u64)>,
}

impl PendingOpen {
    /// A freshly issued open (or delete) request: not yet queued, no
    /// upgrade, no `blocked` event fired.
    pub fn new(kind: OpenKind, name: String, version: u64, conn_id: u64, request_id: u64) -> (r: Self)
        ensures
            r.kind == kind,
            r.name@ == name@,
            r.version == version,
            r.conn_id == conn_id,
            r.request_id == request_id,
            !r.upgrade_active,
            r.upgrade_txn_id is None,
            !r.queued,
            !r.blocked_fired,
            r.upgrade_versions is None,
    {
        PendingOpen {
            kind,
            name,
            version,
            conn_id,
            request_id,
            upgrade_active: false,
            upgrade_txn_id: None,
            queued: false,
            blocked_fired: false,
            upgrade_versions: None,
        }
    }

    /// `(oldVersion, newVersion)` of the `upgradeneeded` event: the
    /// recorded pair, or `(0, version)` before one was recorded.
    pub fn upgrade_event_versions(&self) -> (r: (u64, u64))
        ensures
            r == (match self.upgrade_versions {
                Some(p) => p,
                None => (0u64, self.version),
            }),
    {
        match self.upgrade_versions {
            Some(p) => p,
            None => (0, self.version),
        }
    }
}

/// A transaction handle: mode, scope, schema snapshot and lifecycle flags.
pub struct TxnHandle {
    /// Transaction id.
    pub txn_id: u64,
    /// Connection id.
    pub conn_id: u64,
    /// Database name.
    pub db_name: String,
    /// Mode.
    pub mode: TxnMode,
    /// Store scope (ids).
    pub scope: Vec<u64>,
    /// Durability hint.
    pub durability: Durability,
    /// Schema snapshot (mutated by schema ops on upgrade transactions).
    pub meta: DatabaseMeta,
    /// The backend transaction has been started.
    pub started: bool,
    /// Finished (committed or aborted).
    pub finished: bool,
    /// Transaction is currently active (accepts new requests).
    pub active: bool,
    /// Task epoch of the last activity.
    pub active_epoch: u64,
    /// Explicit `commit()` was called.
    pub explicit_commit: bool,
    /// Stores whose physical deletion is deferred until upgrade commit.
    pub deleted_store_ids: Vec<u64>,
}

/// All driver state.
pub struct DriverState {
    /// Pending opens.
    pub opens: VecDeque<PendingOpen>,
    /// Open transaction handles.
    pub txns: HashMap<u64, TxnHandle>,
    /// Request id to owning transaction.
    pub txn_of_request: HashMap<u64, u64>,
    /// Queued op per request.
    pub ops: HashMap<u64, PendingOp>,
    /// Per-transaction FIFO queues.
    pub txn_queues: HashMap<u64, VecDeque<u64>>,
    /// Live cursors.
    pub cursors: HashMap<u64, CursorState>,
    /// Connections: id to (database name, closed).
    pub connections: HashMap<u64, (String, bool)>,
    /// A pump job is already scheduled.
    pub pump_scheduled: bool,
    pub next_request_id: u64,
    pub next_txn_id: u64,
    pub next_cursor_id: u64,
    pub next_conn_id: u64,
    /// Macro-task epoch: bumped on every timer fire (task boundary).
    pub task_epoch: u64,
}

/// The queue of a transaction (empty when it has none).
pub open spec fn queue_of(queues: Map<u64, VecDeque<u64>>, txn_id: u64) -> Seq<u64> {
    if queues.contains_key(txn_id) {
        queues[txn_id]@
    } else {
        Seq::empty()
    }
}

/// `k` occurs in `s` at or after position `from`.
pub open spec fn in_rest(s: Seq<u64>, from: int, k: u64) -> bool {
    exists|i: int| from <= i < s.len() && s[i] == k
}

/// Every queued request occurs once in its queue, has its op, and is
/// mapped to the queue's owner.
pub open spec fn consistent(queues: Map<u64, VecDeque<u64>>, ops: Map<u64, PendingOp>, owner: Map<u64, u64>) -> bool {
    &&& forall|t: u64| #[trigger] queue_of(queues, t).no_duplicates()
    &&& forall|t: u64, i: int|
        #![trigger queue_of(queues, t)[i]]
        0 <= i < queue_of(queues, t).len() ==> {
            let r = queue_of(queues, t)[i];
            &&& ops.contains_key(r)
            &&& owner.contains_key(r)
            &&& owner[r] == t
        }
}

impl DriverState {
    /// The request queues agree with the ops and their owners.
    pub open spec fn queues_consistent(&self) -> bool {
        consistent(self.txn_queues@, self.ops@, self.txn_of_request@)
    }

    /// Fresh, empty driver state.
    pub fn new() -> (r: Self)
        ensures
            r.opens@.len() == 0,
            r.txns@ == Map::<u64, TxnHandle>::empty(),
            r.txn_of_request@ == Map::<u64, u64>::empty(),
            r.ops@ == Map::<u64, PendingOp>::empty(),
            r.txn_queues@ == Map::<u64, VecDeque<u64>>::empty(),
            r.cursors@ == Map::<u64, CursorState>::empty(),
            r.connections@ == Map::<u64, (String, bool)>::empty(),
            !r.pump_scheduled,
            r.next_request_id == 0,
            r.next_txn_id == 0,
            r.next_cursor_id == 0,
            r.next_conn_id == 0,
            r.task_epoch == 0,
            r.queues_consistent(),
    {
        DriverState {
            opens: VecDeque::new(),
            txns: HashMap::new(),
            txn_of_request: HashMap::new(),
            ops: HashMap::new(),
            txn_queues: HashMap::new(),
            cursors: HashMap::new(),
            connections: HashMap::new(),
            pump_scheduled: false,
            next_request_id: 0,
            next_txn_id: 0,
            next_cursor_id: 0,
            next_conn_id: 0,
            task_epoch: 0,
        }
    }

    /// Allocates a request id.
    pub fn alloc_request(&mut self) -> (id: u64)
        requires
            old(self).next_request_id < u64::MAX,
        ensures
            id == old(self).next_request_id,
            final(self).next_request_id == id + 1,
            final(self).next_txn_id == old(self).next_txn_id,
            final(self).next_cursor_id == old(self).next_cursor_id,
            final(self).next_conn_id == old(self).next_conn_id,
            final(self).txns@ == old(self).txns@,
            final(self).txn_queues@ == old(self).txn_queues@,
            final(self).ops@ == old(self).ops@,
            final(self).txn_of_request@ == old(self).txn_of_request@,
    {
        let id = self.next_request_id;
        self.next_request_id = self.next_request_id + 1;
        id
    }

    /// Allocates a transaction id.
    pub fn alloc_txn(&mut self) -> (id: u64)
        requires
            old(self).next_txn_id < u64::MAX,
        ensures
            id == old(self).next_txn_id,
            final(self).next_txn_id == id + 1,
            final(self).next_request_id == old(self).next_request_id,
            final(self).next_cursor_id == old(self).next_cursor_id,
            final(self).next_conn_id == old(self).next_conn_id,
            final(self).txns@ == old(self).txns@,
            final(self).txn_queues@ == old(self).txn_queues@,
            final(self).ops@ == old(self).ops@,
            final(self).txn_of_request@ == old(self).txn_of_request@,
            final(self).task_epoch == old(self).task_epoch,
    {
        let id = self.next_txn_id;
        self.next_txn_id = self.next_txn_id + 1;
        id
    }

    /// Allocates a cursor id.
    pub fn alloc_cursor(&mut self) -> (id: u64)
        requires
            old(self).next_cursor_id < u64::MAX,
        ensures
            id == old(self).next_cursor_id,
            final(self).next_cursor_id == id + 1,
            final(self).next_request_id == old(self).next_request_id,
            final(self).next_txn_id == old(self).next_txn_id,
            final(self).next_conn_id == old(self).next_conn_id,
            final(self).cursors@ == old(self).cursors@,
            final(self).txns@ == old(self).txns@,
            final(self).txn_queues@ == old(self).txn_queues@,
            final(self).ops@ == old(self).ops@,
            final(self).txn_of_request@ == old(self).txn_of_request@,
    {
        let id = self.next_cursor_id;
        self.next_cursor_id = self.next_cursor_id + 1;
        id
    }

    /// Allocates a connection id.
    pub fn alloc_conn(&mut self) -> (id: u64)
        requires
            old(self).next_conn_id < u64::MAX,
        ensures
            id == old(self).next_conn_id,
            final(self).next_conn_id == id + 1,
            final(self).next_request_id == old(self).next_request_id,
            final(self).next_txn_id == old(self).next_txn_id,
            final(self).next_cursor_id == old(self).next_cursor_id,
            final(self).connections@ == old(self).connections@,
    {
        let id = self.next_conn_id;
        self.next_conn_id = self.next_conn_id + 1;
        id
    }

    /// Enqueues a request on a transaction.
    pub fn enqueue(&mut self, txn_id: u64, request_id: u64, op: PendingOp)
        ensures
            final(self).txn_of_request@ == old(self).txn_of_request@.insert(request_id, txn_id),
            final(self).ops@ == old(self).ops@.insert(request_id, op),
            final(self).txn_queues@.dom() == old(self).txn_queues@.dom().insert(txn_id),
            queue_of(final(self).txn_queues@, txn_id) == queue_of(old(self).txn_queues@, txn_id).push(
                request_id,
            ),
            forall|t: u64|
                t != txn_id ==> #[trigger] queue_of(final(self).txn_queues@, t) == queue_of(
                    old(self).txn_queues@,
                    t,
                ),
            final(self).txns@ == old(self).txns@,
            final(self).opens@ == old(self).opens@,
            final(self).next_request_id == old(self).next_request_id,
            old(self).queues_consistent() && !old(self).ops@.contains_key(request_id) ==> final(self).queues_consistent(),
    {
        self.txn_of_request.insert(request_id, txn_id);
        self.ops.insert(request_id, op);
        let mut queue = match self.txn_queues.remove(&txn_id) {
            Some(q) => q,
            None => VecDeque::new(),
        };
        queue.push_back(request_id);
        self.txn_queues.insert(txn_id, queue);
        proof {
            assert forall|t: u64| t != txn_id implies #[trigger] queue_of(self.txn_queues@, t)
                == queue_of(old(self).txn_queues@, t) by {}
            if old(self).queues_consistent() && !old(self).ops@.contains_key(request_id) {
                let q0 = queue_of(old(self).txn_queues@, txn_id);
                assert(!q0.contains(request_id)) by {
                    if q0.contains(request_id) {
                        let k = q0.index_of(request_id);
                        assert(q0[k] == request_id);
                    }
                }
                assert forall|t: u64| #[trigger] queue_of(self.txn_queues@, t).no_duplicates() by {
                    if t == txn_id {
                        assert(queue_of(old(self).txn_queues@, t).no_duplicates());
                        assert forall|a: int, b: int| 0 <= a < b < q0.push(request_id).len() implies q0.push(request_id)[a] != q0.push(request_id)[b] by {
                            if b == q0.len() {
                                assert(q0[a] != request_id);
                            }
                        }
                    } else {
                        assert(queue_of(old(self).txn_queues@, t).no_duplicates());
                    }
                }
                assert forall|t: u64, i: int|
                    #![trigger queue_of(self.txn_queues@, t)[i]]
                    0 <= i < queue_of(self.txn_queues@, t).len() implies {
                        let r = queue_of(self.txn_queues@, t)[i];
                        &&& self.ops@.contains_key(r)
                        &&& self.txn_of_request@.contains_key(r)
                        &&& self.txn_of_request@[r] == t
                    } by {
                    if t == txn_id && i == q0.len() {
                    } else {
                        let r = queue_of(old(self).txn_queues@, t)[i];
                        assert(queue_of(self.txn_queues@, t)[i] == r);
                        assert(old(self).ops@.contains_key(r));
                    }
                }
            }
        }
    }

    /// Claims the single pump job: `true` when none was scheduled yet (the
    /// caller schedules it), `false` when one already is.
    pub fn claim_pump(&mut self) -> (claimed: bool)
        ensures
            claimed == !old(self).pump_scheduled,
            final(self).pump_scheduled,
            final(self).txns@ == old(self).txns@,
            final(self).txn_queues@ == old(self).txn_queues@,
            final(self).ops@ == old(self).ops@,
            final(self).txn_of_request@ == old(self).txn_of_request@,
            final(self).opens@ == old(self).opens@,
    {
        if self.pump_scheduled {
            false
        } else {
            self.pump_scheduled = true;
            true
        }
    }

    /// The pump job finished draining: a later change schedules a new one.
    pub fn release_pump(&mut self)
        ensures
            !final(self).pump_scheduled,
            final(self).txns@ == old(self).txns@,
            final(self).txn_queues@ == old(self).txn_queues@,
            final(self).ops@ == old(self).ops@,
            final(self).txn_of_request@ == old(self).txn_of_request@,
            final(self).opens@ == old(self).opens@,
    {
        self.pump_scheduled = false;
    }

    /// Some transaction queue still holds a request.
    pub open spec fn spec_has_queued(&self) -> bool {
        exists|t: u64| #[trigger] queue_of(self.txn_queues@, t).len() > 0
    }

    /// Whether the driver still has work: a pending open or a queued request.
    pub fn has_pending_work(&self) -> (r: bool)
        ensures
            r == (self.opens@.len() > 0 || self.spec_has_queued()),
    {
        if self.opens.len() > 0 {
            return true;
        }
        let ghost mut seen: Seq<u64> = Seq::empty();
        for t in it: self.txn_queues.keys()
            invariant
                it.seq().unref().to_set() == self.txn_queues@.dom(),
                forall|j: int| 0 <= j < seen.len() ==> queue_of(self.txn_queues@, #[trigger] seen[j]).len() == 0,
                forall|k: u64| #[trigger] self.txn_queues@.dom().contains(k) ==> (seen.contains(k)
                    || in_rest(it.seq().unref(), it.index(), k)),
        {
            if let Some(q) = self.txn_queues.get(t) {
                if q.len() > 0 {
                    assert(queue_of(self.txn_queues@, *t).len() > 0);
                    return true;
                }
            }
            let ghost old_seen = seen;
            proof {
                seen = seen.push(*t);
            }
            assert forall|k: u64| #[trigger] self.txn_queues@.dom().contains(k) implies (seen.contains(k)
                || in_rest(it.seq().unref(), it.index() + 1, k)) by {
                if k == *t {
                    assert(seen[seen.len() - 1] == k);
                } else if old_seen.contains(k) {
                    let j = old_seen.index_of(k);
                    assert(seen[j] == k);
                } else {
                    let i = choose|i: int| it.index() <= i < it.seq().unref().len() && it.seq().unref()[i] == k;
                    assert(i != it.index());
                }
            }
        }
        proof {
            assert forall|k: u64| #[trigger] queue_of(self.txn_queues@, k).len() == 0 by {
                if self.txn_queues@.contains_key(k) {
                    assert(self.txn_queues@.dom().contains(k));
                    let j = seen.index_of(k);
                    assert(queue_of(self.txn_queues@, seen[j]).len() == 0);
                }
            }
        }
        false
    }

    /// Ids of the live (not closed) connections to database `db_name`.
    pub open spec fn live_conn_ids(&self, db_name: Seq<char>) -> Set<u64> {
        self.connections@.dom().filter(
            |id: u64| self.connections@[id].0@ == db_name && !self.connections@[id].1,
        )
    }

    /// Counts live (non-closed) connections of a database.
    pub fn live_connection_count(&self, db_name: &str) -> (r: u32)
        ensures
            r == (self.live_conn_ids(db_name@).len() as u32),
    {
        let ids = keys_of(&self.connections);
        let mut count: usize = 0;
        let ghost mut counted: Set<u64> = Set::empty();
        let mut i: usize = 0;
        while i < ids.len()
            invariant
                i <= ids.len(),
                ids@.no_duplicates(),
                forall|k: u64| #[trigger] ids@.contains(k) <==> self.connections@.contains_key(k),
                counted.finite(),
                count == counted.len(),
                count <= i,
                forall|k: u64|
                    #[trigger] counted.contains(k) <==> (ids@.subrange(0, i as int).contains(k)
                        && self.live_conn_ids(db_name@).contains(k)),
            decreases ids.len() - i,
        {
            let id = ids[i];
            assert(self.connections@.contains_key(id)) by {
                assert(ids@.contains(id));
            }
            let entry = self.connections.get(&id).unwrap();
            let live = !entry.1 && str_eq(entry.0.as_str(), db_name);
            assert(live == self.live_conn_ids(db_name@).contains(id));
            assert(!counted.contains(id)) by {
                if counted.contains(id) {
                    let j = ids@.subrange(0, i as int).index_of(id);
                    assert(ids@[j] == ids@[i as int]);
                }
            }
            if live {
                count = count + 1;
                proof {
                    counted = counted.insert(id);
                }
            }
            proof {
                assert forall|k: u64| #[trigger] counted.contains(k) <==> (ids@.subrange(
                    0,
                    i + 1,
                ).contains(k) && self.live_conn_ids(db_name@).contains(k)) by {
                    if ids@.subrange(0, i as int).contains(k) {
                        let j = ids@.subrange(0, i as int).index_of(k);
                        assert(ids@.subrange(0, i + 1)[j] == k);
                    }
                    if k == id {
                        assert(ids@.subrange(0, i + 1)[i as int] == id);
                    }
                    if ids@.subrange(0, i + 1).contains(k) && k != id {
                        let j = ids@.subrange(0, i + 1).index_of(k);
                        assert(ids@.subrange(0, i as int)[j] == k);
                    }
                }
            }
            i = i + 1;
        }
        proof {
            assert(ids@.subrange(0, ids@.len() as int) =~= ids@);
            assert(counted =~= self.live_conn_ids(db_name@)) by {
                assert forall|k: u64| #[trigger] self.live_conn_ids(db_name@).contains(k) implies counted.contains(k) by {
                    assert(ids@.contains(k));
                }
            }
        }
        #[verifier::truncate]
        (count as u32)
    }

    /// Records a new open connection to `db_name`.
    pub fn register_connection(&mut self, conn_id: u64, db_name: String)
        ensures
            final(self).connections@ == old(self).connections@.insert(conn_id, (db_name, false)),
            final(self).txns@ == old(self).txns@,
            final(self).opens@ == old(self).opens@,
    {
        self.connections.insert(conn_id, (db_name, false));
    }

    /// Marks a connection closed (its open queue may then advance).
    pub fn on_connection_closed(&mut self, conn_id: u64)
        ensures
            old(self).connections@.contains_key(conn_id) ==> final(self).connections@
                == old(self).connections@.insert(
                conn_id,
                (old(self).connections@[conn_id].0, true),
            ),
            !old(self).connections@.contains_key(conn_id) ==> final(self).connections@
                == old(self).connections@,
            final(self).txns@ == old(self).txns@,
            final(self).opens@ == old(self).opens@,
    {
        if let Some(entry) = self.connections.remove(&conn_id) {
            self.connections.insert(conn_id, (entry.0, true));
        }
        proof {
            if !old(self).connections@.contains_key(conn_id) {
                assert(self.connections@ =~= old(self).connections@);
            }
        }
    }

    /// Records a macro-task boundary: scopes go inactive.
    pub fn note_timer_task(&mut self)
        requires
            old(self).task_epoch < u64::MAX,
        ensures
            final(self).task_epoch == old(self).task_epoch + 1,
            final(self).txns@ == old(self).txns@,
    {
        self.task_epoch = self.task_epoch + 1;
    }

    /// Enqueues a database open / delete.
    pub fn enqueue_open(&mut self, open: PendingOpen)
        ensures
            final(self).opens@ == old(self).opens@.push(open),
            final(self).txns@ == old(self).txns@,
            final(self).connections@ == old(self).connections@,
    {
        self.opens.push_back(open);
    }

    /// Removes every pending open of request `request_id`, keeping the
    /// order of the others.
    pub fn remove_open(&mut self, request_id: u64)
        ensures
            final(self).opens@ == opens_without(old(self).opens@, request_id),
            final(self).txns@ == old(self).txns@,
            final(self).connections@ == old(self).connections@,
            final(self).txn_queues@ == old(self).txn_queues@,
    {
        let n = self.opens.len();
        let mut kept: VecDeque<PendingOpen> = VecDeque::new();
        let mut i: usize = 0;
        while i < n
            invariant
                n == old(self).opens@.len(),
                i <= n,
                self.opens@ == old(self).opens@.skip(i as int),
                kept@ == opens_without(old(self).opens@.take(i as int), request_id),
                self.txns@ == old(self).txns@,
                self.connections@ == old(self).connections@,
                self.txn_queues@ == old(self).txn_queues@,
            decreases n - i,
        {
            let o = self.opens.pop_front().unwrap();
            proof {
                assert(old(self).opens@.take(i + 1).drop_last() =~= old(self).opens@.take(i as int));
                assert(old(self).opens@.skip(i + 1) =~= old(self).opens@.skip(i as int).drop_first());
            }
            if o.request_id != request_id {
                kept.push_back(o);
            }
            i = i + 1;
        }
        proof {
            assert(old(self).opens@.take(n as int) =~= old(self).opens@);
        }
        self.opens = kept;
    }

    /// Position of the first pending open of request `request_id`.
    pub fn find_open(&self, request_id: u64) -> (r: Option<usize>)
        ensures
            r matches Some(i) ==> i < self.opens@.len() && self.opens@[i as int].request_id
                == request_id && forall|j: int| 0 <= j < i ==> self.opens@[j].request_id != request_id,
            r is None ==> forall|j: int|
                0 <= j < self.opens@.len() ==> self.opens@[j].request_id != request_id,
            r matches Some(i) ==> i == first_open_index(self.opens@, request_id),
            r is None ==> first_open_index(self.opens@, request_id) == self.opens@.len(),
    {
        let mut i: usize = 0;
        while i < self.opens.len()
            invariant
                i <= self.opens@.len(),
                forall|j: int| 0 <= j < i ==> self.opens@[j].request_id != request_id,
            decreases self.opens@.len() - i,
        {
            if self.opens[i].request_id == request_id {
                proof {
                    lemma_first_open_index(self.opens@, request_id, i as int);
                }
                return Some(i);
            }
            i = i + 1;
        }
        proof {
            lemma_first_open_index_none(self.opens@, request_id);
        }
        None
    }

    /// Records that the upgrade of open `request_id` started on
    /// transaction `txn_id` (first such open only).
    pub fn mark_upgrade_started(&mut self, request_id: u64, txn_id: u64, old_version: u64, new_version: u64)
        ensures
            final(self).opens@.len() == old(self).opens@.len(),
            forall|j: int| 0 <= j < old(self).opens@.len() ==> {
                let o = old(self).opens@[j];
                let n = #[trigger] final(self).opens@[j];
                if j == first_open_index(old(self).opens@, request_id) {
                    n == PendingOpen {
                        upgrade_active: true,
                        upgrade_txn_id: Some(txn_id),
                        upgrade_versions: Some((old_version, new_version)),
                        ..o
                    }
                } else {
                    n == o
                }
            },
            final(self).txns@ == old(self).txns@,
            final(self).txn_queues@ == old(self).txn_queues@,
    {
        match self.find_open(request_id) {
            Some(i) => {
                let mut o = self.opens.remove(i).unwrap();
                o.upgrade_active = true;
                o.upgrade_txn_id = Some(txn_id);
                o.upgrade_versions = Some((old_version, new_version));
                self.opens.insert(i, o);
            },
            None => {},
        }
    }

    /// Marks open `request_id` as registered in its database open queue.
    pub fn mark_open_queued(&mut self, request_id: u64)
        ensures
            final(self).opens@.len() == old(self).opens@.len(),
            forall|j: int| 0 <= j < old(self).opens@.len() ==> {
                let o = old(self).opens@[j];
                let n = #[trigger] final(self).opens@[j];
                if j == first_open_index(old(self).opens@, request_id) {
                    n == PendingOpen { queued: true, ..o }
                } else {
                    n == o
                }
            },
            final(self).txns@ == old(self).txns@,
    {
        match self.find_open(request_id) {
            Some(i) => {
                let mut o = self.opens.remove(i).unwrap();
                o.queued = true;
                self.opens.insert(i, o);
            },
            None => {},
        }
    }

    /// Marks the `blocked` event of open `request_id` as fired; returns
    /// `true` only the first time (when the event is to be fired now).
    pub fn mark_blocked_fired(&mut self, request_id: u64) -> (fire: bool)
        ensures
            final(self).opens@.len() == old(self).opens@.len(),
            fire == (first_open_index(old(self).opens@, request_id) < old(self).opens@.len()
                && !old(self).opens@[first_open_index(old(self).opens@, request_id)].blocked_fired),
            forall|j: int| 0 <= j < old(self).opens@.len() ==> {
                let o = old(self).opens@[j];
                let n = #[trigger] final(self).opens@[j];
                if j == first_open_index(old(self).opens@, request_id) {
                    n == PendingOpen { blocked_fired: true, ..o }
                } else {
                    n == o
                }
            },
            final(self).txns@ == old(self).txns@,
    {
        match self.find_open(request_id) {
            Some(i) => {
                let mut o = self.opens.remove(i).unwrap();
                let fire = !o.blocked_fired;
                o.blocked_fired = true;
                self.opens.insert(i, o);
                fire
            },
            None => false,
        }
    }

    /// Request ids of the opens not draining an upgrade, in queue order.
    pub fn waiting_open_ids(&self) -> (r: Vec<u64>)
        ensures
            r@ == waiting_ids(self.opens@),
            r@ == request_ids(self.opens@.filter(not_upgrading())),
    {
        proof {
            lemma_waiting_ids_skip_upgrades(self.opens@);
        }
        let mut out: Vec<u64> = Vec::new();
        let mut i: usize = 0;
        while i < self.opens.len()
            invariant
                i <= self.opens@.len(),
                out@ == waiting_ids(self.opens@.take(i as int)),
            decreases self.opens@.len() - i,
        {
            proof {
                assert(self.opens@.take(i + 1).drop_last() =~= self.opens@.take(i as int));
            }
            if !self.opens[i].upgrade_active {
                out.push(self.opens[i].request_id);
            }
            i = i + 1;
        }
        proof {
            assert(self.opens@.take(self.opens@.len() as int) =~= self.opens@);
        }
        out
    }

    /// Looks at the first open draining an upgrade.
    pub fn probe_upgrade(&self) -> (r: UpgradeProbe)
        ensures
            match r {
                UpgradeProbe::NoUpgrade => forall|j: int|
                    0 <= j < self.opens@.len() ==> !self.opens@[j].upgrade_active,
                _ => {
                    let j = first_upgrade_index(self.opens@);
                    &&& 0 <= j < self.opens@.len()
                    &&& self.opens@[j].upgrade_active
                    &&& forall|i: int| 0 <= i < j ==> !self.opens@[i].upgrade_active
                    &&& match r {
                        UpgradeProbe::MissingTxn => self.opens@[j].upgrade_txn_id is None,
                        UpgradeProbe::Draining { txn_id } => self.opens@[j].upgrade_txn_id == Some(txn_id)
                            && queue_of(self.txn_queues@, txn_id).len() > 0,
                        UpgradeProbe::Drained { index, txn_id } => index == j && self.opens@[j].upgrade_txn_id
                            == Some(txn_id) && queue_of(self.txn_queues@, txn_id).len() == 0,
                        _ => false,
                    }
                },
            },
    {
        let mut i: usize = 0;
        while i < self.opens.len()
            invariant
                i <= self.opens@.len(),
                forall|j: int| 0 <= j < i ==> !self.opens@[j].upgrade_active,
            decreases self.opens@.len() - i,
        {
            if self.opens[i].upgrade_active {
                proof {
                    lemma_first_upgrade_index(self.opens@, i as int);
                }
                return match self.opens[i].upgrade_txn_id {
                    None => UpgradeProbe::MissingTxn,
                    Some(txn_id) => {
                        let drained = match self.txn_queues.get(&txn_id) {
                            Some(q) => q.len() == 0,
                            None => true,
                        };
                        if drained {
                            UpgradeProbe::Drained { index: i, txn_id }
                        } else {
                            UpgradeProbe::Draining { txn_id }
                        }
                    },
                };
            }
            i = i + 1;
        }
        UpgradeProbe::NoUpgrade
    }

    /// Removes and returns the open whose upgrade runs on `txn_id`.
    pub fn take_upgrade_open(&mut self, txn_id: u64) -> (r: Option<PendingOpen>)
        ensures
            match r {
                Some(o) => {
                    let j = first_upgrade_of(old(self).opens@, txn_id);
                    &&& 0 <= j < old(self).opens@.len()
                    &&& o == old(self).opens@[j]
                    &&& final(self).opens@ == old(self).opens@.remove(j)
                },
                None => forall|j: int|
                    0 <= j < old(self).opens@.len() ==> old(self).opens@[j].upgrade_txn_id != Some(
                        txn_id,
                    ),
            },
            r is None ==> final(self).opens@ == old(self).opens@,
            final(self).txns@ == old(self).txns@,
    {
        let mut i: usize = 0;
        while i < self.opens.len()
            invariant
                i <= self.opens@.len(),
                self.opens@ == old(self).opens@,
                self.txns@ == old(self).txns@,
                forall|j: int| 0 <= j < i ==> self.opens@[j].upgrade_txn_id != Some(txn_id),
            decreases self.opens@.len() - i,
        {
            let hit = match self.opens[i].upgrade_txn_id {
                Some(t) => t == txn_id,
                None => false,
            };
            if hit {
                proof {
                    lemma_first_upgrade_of(old(self).opens@, txn_id, i as int);
                }
                return self.opens.remove(i);
            }
            i = i + 1;
        }
        None
    }
}

/// Outcome of looking at the first open draining an upgrade.
pub enum UpgradeProbe {
    /// No open is draining an upgrade.
    NoUpgrade,
    /// The draining open has no transaction id: no open step can be taken.
    MissingTxn,
    /// The upgrade transaction still has queued requests.
    Draining { txn_id: u64 },
    /// The upgrade transaction is drained: finish it.
    Drained { index: usize, txn_id: u64 },
}

/// Index of the first open of request `request_id` (`len` if none).
pub open spec fn first_open_index(s: Seq<PendingOpen>, request_id: u64) -> int
    decreases s.len(),
{
    if s.len() == 0 {
        0
    } else if s[0].request_id == request_id {
        0
    } else {
        1 + first_open_index(s.drop_first(), request_id)
    }
}

/// Index of the first open draining an upgrade (`len` if none).
pub open spec fn first_upgrade_index(s: Seq<PendingOpen>) -> int
    decreases s.len(),
{
    if s.len() == 0 {
        0
    } else if s[0].upgrade_active {
        0
    } else {
        1 + first_upgrade_index(s.drop_first())
    }
}

/// Index of the first open whose upgrade runs on `txn_id` (`len` if none).
pub open spec fn first_upgrade_of(s: Seq<PendingOpen>, txn_id: u64) -> int
    decreases s.len(),
{
    if s.len() == 0 {
        0
    } else if s[0].upgrade_txn_id == Some(txn_id) {
        0
    } else {
        1 + first_upgrade_of(s.drop_first(), txn_id)
    }
}

proof fn lemma_first_open_index(s: Seq<PendingOpen>, request_id: u64, i: int)
    requires
        0 <= i < s.len(),
        s[i].request_id == request_id,
        forall|j: int| 0 <= j < i ==> s[j].request_id != request_id,
    ensures
        first_open_index(s, request_id) == i,
    decreases i,
{
    if i > 0 {
        lemma_first_open_index(s.drop_first(), request_id, i - 1);
    }
}

proof fn lemma_first_open_index_none(s: Seq<PendingOpen>, request_id: u64)
    requires
        forall|j: int| 0 <= j < s.len() ==> s[j].request_id != request_id,
    ensures
        first_open_index(s, request_id) == s.len(),
    decreases s.len(),
{
    if s.len() > 0 {
        lemma_first_open_index_none(s.drop_first(), request_id);
    }
}

proof fn lemma_first_upgrade_index(s: Seq<PendingOpen>, i: int)
    requires
        0 <= i < s.len(),
        s[i].upgrade_active,
        forall|j: int| 0 <= j < i ==> !s[j].upgrade_active,
    ensures
        first_upgrade_index(s) == i,
    decreases i,
{
    if i > 0 {
        lemma_first_upgrade_index(s.drop_first(), i - 1);
    }
}

proof fn lemma_first_upgrade_of(s: Seq<PendingOpen>, txn_id: u64, i: int)
    requires
        0 <= i < s.len(),
        s[i].upgrade_txn_id == Some(txn_id),
        forall|j: int| 0 <= j < i ==> s[j].upgrade_txn_id != Some(txn_id),
    ensures
        first_upgrade_of(s, txn_id) == i,
    decreases i,
{
    if i > 0 {
        lemma_first_upgrade_of(s.drop_first(), txn_id, i - 1);
    }
}

/// The opens without those of request `request_id`.
pub open spec fn opens_without(s: Seq<PendingOpen>, request_id: u64) -> Seq<PendingOpen>
    decreases s.len(),
{
    if s.len() == 0 {
        s
    } else {
        let rest = opens_without(s.drop_last(), request_id);
        if s.last().request_id == request_id {
            rest
        } else {
            rest.push(s.last())
        }
    }
}

/// An open that is not draining an upgrade.
pub open spec fn not_upgrading() -> spec_fn(PendingOpen) -> bool {
    |o: PendingOpen| !o.upgrade_active
}

/// The request ids of the opens, in order.
pub open spec fn request_ids(s: Seq<PendingOpen>) -> Seq<u64> {
    s.map_values(|o: PendingOpen| o.request_id)
}

/// The opens looked at for a new step are those not draining an upgrade,
/// each once, in the order they were issued.
pub proof fn lemma_waiting_ids_skip_upgrades(s: Seq<PendingOpen>)
    ensures
        waiting_ids(s) == request_ids(s.filter(not_upgrading())),
    decreases s.len(),
{
    reveal(Seq::filter);
    if s.len() == 0 {
        assert(request_ids(s.filter(not_upgrading())) =~= Seq::empty());
    } else {
        lemma_waiting_ids_skip_upgrades(s.drop_last());
        let prev = s.drop_last().filter(not_upgrading());
        if !s.last().upgrade_active {
            assert(request_ids(prev.push(s.last())) =~= request_ids(prev).push(s.last().request_id));
        }
    }
}

/// Request ids of the opens that are not draining an upgrade.
pub open spec fn waiting_ids(s: Seq<PendingOpen>) -> Seq<u64>
    decreases s.len(),
{
    if s.len() == 0 {
        Seq::empty()
    } else {
        let rest = waiting_ids(s.drop_last());
        if s.last().upgrade_active {
            rest
        } else {
            rest.push(s.last().request_id)
        }
    }
}

} // verus!
