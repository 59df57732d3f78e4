//! Transaction lifecycle in the driver: creation, activity, the choice of
//! the next request to run, auto-commit eligibility, and the bookkeeping of
//! finished and aborted transactions.

use std::collections::VecDeque;

use vstd::prelude::*;

use crate::driver::{consistent, queue_of, DriverState, PendingOp, TxnHandle};
use crate::error::{message_of, IdbError};
use crate::maps::keys_of;
use crate::proto::{Durability, TxnMode};
use crate::schema::{DatabaseMeta, StoreMeta};
use crate::text::{concat3, decimal, decimal_string};

verus! {

broadcast use vstd::std_specs::hash::group_hash_axioms;

/// Store `sid` exists in the snapshot and is not deleted.
pub open spec fn store_id_live(stores: Seq<StoreMeta>, sid: u64) -> bool {
    exists|i: int| 0 <= i < stores.len() && stores[i].id == sid && !stores[i].deleted
}

/// Every id of the scope names a live store.
pub open spec fn scope_live(stores: Seq<StoreMeta>, scope: Seq<u64>) -> bool {
    forall|j: int| 0 <= j < scope.len() ==> store_id_live(stores, #[trigger] scope[j])
}

/// A handle as freshly created.
pub open spec fn fresh_handle(
    h: TxnHandle,
    txn_id: u64,
    conn_id: u64,
    db_name: Seq<char>,
    mode: TxnMode,
    scope: Seq<u64>,
    durability: Durability,
    epoch: u64,
    started: bool,
) -> bool {
    &&& h.txn_id == txn_id
    &&& h.conn_id == conn_id
    &&& h.db_name@ == db_name
    &&& h.mode == mode
    &&& h.scope@ == scope
    &&& h.durability == durability
    &&& h.started == started
    &&& !h.finished
    &&& h.active
    &&& h.active_epoch == epoch
    &&& !h.explicit_commit
    &&& h.deleted_store_ids@.len() == 0
}

/// A transaction whose scope may be closed: live, active, not an upgrade,
/// with nothing queued.
pub open spec fn idle(h: TxnHandle, queues: Map<u64, VecDeque<u64>>, id: u64) -> bool {
    !h.finished && h.active && h.mode != TxnMode::VersionChange && queue_of(queues, id).len() == 0
}

/// A transaction that may auto-commit now: started, live, not an upgrade,
/// inactive or explicitly committed, and drained.
pub open spec fn finishable(h: TxnHandle, queues: Map<u64, VecDeque<u64>>, id: u64) -> bool {
    &&& !h.finished
    &&& h.started
    &&& h.mode != TxnMode::VersionChange
    &&& (!h.active || h.explicit_commit)
    &&& queue_of(queues, id).len() == 0
}

/// One executable transaction-queue unit.
pub enum TxnWork {
    /// Execute a single queued op.
    Exec { txn_id: u64, request_id: u64, op: PendingOp },
    /// Drain a dead queue (unknown or finished handle) with failures.
    FailStalled { txn_id: u64 },
}

fn first_missing_store(meta: &DatabaseMeta, scope: &Vec<u64>) -> (r: Option<u64>)
    ensures
        r is None <==> scope_live(meta.stores@, scope@),
        r matches Some(sid) ==> exists|j: int|
            0 <= j < scope@.len() && scope@[j] == sid && !store_id_live(meta.stores@, sid)
                && forall|k: int| 0 <= k < j ==> store_id_live(meta.stores@, #[trigger] scope@[k]),
{
    let mut j: usize = 0;
    while j < scope.len()
        invariant
            j <= scope@.len(),
            forall|k: int| 0 <= k < j ==> store_id_live(meta.stores@, #[trigger] scope@[k]),
        decreases scope@.len() - j,
    {
        let sid = scope[j];
        let mut i: usize = 0;
        let mut found = false;
        while i < meta.stores.len() && !found
            invariant
                i <= meta.stores@.len(),
                found ==> store_id_live(meta.stores@, sid),
                forall|x: int|
                    0 <= x < i ==> !(meta.stores@[x].id == sid && !meta.stores@[x].deleted),
            decreases meta.stores@.len() - i + if found { 0int } else { 1int },
        {
            if meta.stores[i].id == sid && !meta.stores[i].deleted {
                found = true;
            } else {
                i = i + 1;
            }
        }
        if !found {
            assert(!store_id_live(meta.stores@, sid));
            assert(scope@[j as int] == sid);
            return Some(sid);
        }
        j = j + 1;
    }
    None
}

impl DriverState {
    /// Creates a normal (non-upgrade) transaction handle over a schema
    /// snapshot. The id is allocated first, so a failed scope check still
    /// consumes it.
    pub fn create_txn(
        &mut self,
        conn_id: u64,
        db_name: String,
        mode: TxnMode,
        scope: Vec<u64>,
        durability: Durability,
        meta: DatabaseMeta,
    ) -> (r: Result<u64, IdbError>)
        requires
            old(self).next_txn_id < u64::MAX,
        ensures
            final(self).next_txn_id == old(self).next_txn_id + 1,
            r is Ok <==> scope_live(meta.stores@, scope@),
            r matches Err(e) ==> {
                &&& e is NotFound
                &&& final(self).txns@ == old(self).txns@
                &&& exists|j: int| {
                    &&& 0 <= j < scope@.len()
                    &&& !store_id_live(meta.stores@, #[trigger] scope@[j])
                    &&& forall|k: int| 0 <= k < j ==> store_id_live(meta.stores@, #[trigger] scope@[k])
                    &&& message_of(e) == "Object store id "@ + decimal(scope@[j] as nat) + " not found"@
                }
            },
            r matches Ok(id) ==> {
                &&& id == old(self).next_txn_id
                &&& final(self).txns@.dom() == old(self).txns@.dom().insert(id)
                &&& forall|t: u64| t != id ==> #[trigger] final(self).txns@.index(t) == old(self).txns@.index(t)
                &&& fresh_handle(final(self).txns@[id], id, conn_id, db_name@, mode, scope@, durability, old(self).task_epoch, false)
                &&& final(self).txns@[id].meta == meta
            },
            final(self).txn_queues@ == old(self).txn_queues@,
            final(self).ops@ == old(self).ops@,
            final(self).txn_of_request@ == old(self).txn_of_request@,
            final(self).task_epoch == old(self).task_epoch,
    {
        let txn_id = self.alloc_txn();
        match first_missing_store(&meta, &scope) {
            Some(sid) => {
                let id_text = decimal_string(sid);
                return Err(IdbError::NotFound(concat3("Object store id ", id_text.as_str(), " not found")));
            },
            None => {},
        }
        let handle = TxnHandle {
            txn_id,
            conn_id,
            db_name,
            mode,
            scope,
            durability,
            meta,
            started: false,
            finished: false,
            active: true,
            active_epoch: self.task_epoch,
            explicit_commit: false,
            deleted_store_ids: Vec::new(),
        };
        self.txns.insert(txn_id, handle);
        Ok(txn_id)
    }

    /// Installs the handle of a versionchange transaction whose backend
    /// transaction has already begun (empty scope: it sees every store).
    pub fn install_upgrade_txn(&mut self, txn_id: u64, conn_id: u64, db_name: String, meta: DatabaseMeta)
        ensures
            final(self).txns@.dom() == old(self).txns@.dom().insert(txn_id),
            forall|t: u64| t != txn_id ==> #[trigger] final(self).txns@.index(t) == old(self).txns@.index(t),
            fresh_handle(final(self).txns@[txn_id], txn_id, conn_id, db_name@, TxnMode::VersionChange, Seq::empty(), Durability::Default, old(self).task_epoch, true),
            final(self).txns@[txn_id].meta == meta,
            final(self).txn_queues@ == old(self).txn_queues@,
            final(self).ops@ == old(self).ops@,
            final(self).txn_of_request@ == old(self).txn_of_request@,
            final(self).task_epoch == old(self).task_epoch,
    {
        let handle = TxnHandle {
            txn_id,
            conn_id,
            db_name,
            mode: TxnMode::VersionChange,
            scope: Vec::new(),
            durability: Durability::Default,
            meta,
            started: true,
            finished: false,
            active: true,
            active_epoch: self.task_epoch,
            explicit_commit: false,
            deleted_store_ids: Vec::new(),
        };
        self.txns.insert(txn_id, handle);
    }

    /// Applies `f` to the handle of `txn_id`, if any.
    pub open spec fn updated_txns(
        old_txns: Map<u64, TxnHandle>,
        new_txns: Map<u64, TxnHandle>,
        txn_id: u64,
        f: spec_fn(TxnHandle) -> TxnHandle,
    ) -> bool {
        if old_txns.contains_key(txn_id) {
            new_txns == old_txns.insert(txn_id, f(old_txns[txn_id]))
        } else {
            new_txns == old_txns
        }
    }

    /// Records that the backend transaction of `txn_id` started.
    pub fn mark_txn_started(&mut self, txn_id: u64)
        ensures
            Self::updated_txns(old(self).txns@, final(self).txns@, txn_id, |h: TxnHandle| TxnHandle { started: true, ..h }),
            final(self).txn_queues@ == old(self).txn_queues@,
            final(self).ops@ == old(self).ops@,
            final(self).txn_of_request@ == old(self).txn_of_request@,
            final(self).task_epoch == old(self).task_epoch,
    {
        if let Some(mut h) = self.txns.remove(&txn_id) {
            h.started = true;
            self.txns.insert(txn_id, h);
            assert(self.txns@ =~= old(self).txns@.insert(txn_id, TxnHandle { started: true, ..old(self).txns@[txn_id] }));
        } else {
            assert(self.txns@ =~= old(self).txns@);
        }
    }

    /// Marks `txn_id` finished (its backend transaction failed to start).
    pub fn mark_txn_finished(&mut self, txn_id: u64)
        ensures
            Self::updated_txns(old(self).txns@, final(self).txns@, txn_id, |h: TxnHandle| TxnHandle { finished: true, ..h }),
            final(self).txn_queues@ == old(self).txn_queues@,
            final(self).ops@ == old(self).ops@,
            final(self).txn_of_request@ == old(self).txn_of_request@,
            final(self).task_epoch == old(self).task_epoch,
    {
        if let Some(mut h) = self.txns.remove(&txn_id) {
            h.finished = true;
            self.txns.insert(txn_id, h);
            assert(self.txns@ =~= old(self).txns@.insert(txn_id, TxnHandle { finished: true, ..old(self).txns@[txn_id] }));
        } else {
            assert(self.txns@ =~= old(self).txns@);
        }
    }

    /// Refreshes a transaction's activity epoch to the current task epoch.
    pub fn refresh_txn_epoch(&mut self, txn_id: u64)
        ensures
            Self::updated_txns(old(self).txns@, final(self).txns@, txn_id, |h: TxnHandle| TxnHandle { active_epoch: old(self).task_epoch, ..h }),
            final(self).txn_queues@ == old(self).txn_queues@,
            final(self).ops@ == old(self).ops@,
            final(self).txn_of_request@ == old(self).txn_of_request@,
            final(self).task_epoch == old(self).task_epoch,
    {
        let epoch = self.task_epoch;
        if let Some(mut h) = self.txns.remove(&txn_id) {
            h.active_epoch = epoch;
            self.txns.insert(txn_id, h);
            assert(self.txns@ =~= old(self).txns@.insert(txn_id, TxnHandle { active_epoch: old(self).task_epoch, ..old(self).txns@[txn_id] }));
        } else {
            assert(self.txns@ =~= old(self).txns@);
        }
    }

    /// Records an explicit `commit()` on the handle of `txn_id`.
    pub fn mark_explicit_commit(&mut self, txn_id: u64)
        ensures
            Self::updated_txns(old(self).txns@, final(self).txns@, txn_id, |h: TxnHandle| TxnHandle { explicit_commit: true, ..h }),
            final(self).txn_queues@ == old(self).txn_queues@,
            final(self).ops@ == old(self).ops@,
            final(self).txn_of_request@ == old(self).txn_of_request@,
            final(self).task_epoch == old(self).task_epoch,
    {
        if let Some(mut h) = self.txns.remove(&txn_id) {
            h.explicit_commit = true;
            self.txns.insert(txn_id, h);
            assert(self.txns@ =~= old(self).txns@.insert(txn_id, TxnHandle { explicit_commit: true, ..old(self).txns@[txn_id] }));
        } else {
            assert(self.txns@ =~= old(self).txns@);
        }
    }

    /// The handle of `txn_id` went inactive across a task boundary.
    pub open spec fn spec_epoch_stale(&self, txn_id: u64) -> bool {
        self.txns@.contains_key(txn_id) && self.txns@[txn_id].active_epoch != self.task_epoch
    }

    /// Whether `commit()` may proceed, given the flags of the transaction
    /// object: `InvalidStateError` when finished, already committing,
    /// inactive, or stale across a task boundary.
    pub fn commit_check(&self, txn_id: u64, active: bool, finished: bool, explicit_commit: bool) -> (r: Result<(), IdbError>)
        ensures
            r is Ok <==> (!finished && !explicit_commit && active && !self.spec_epoch_stale(txn_id)),
            r matches Err(e) ==> e is InvalidState
                && message_of(e) == "The transaction cannot be committed in its current state."@,
    {
        let epoch_stale = match self.txns.get(&txn_id) {
            Some(h) => h.active_epoch != self.task_epoch,
            None => false,
        };
        if finished || explicit_commit || !active || epoch_stale {
            return Err(IdbError::InvalidState("The transaction cannot be committed in its current state.".to_string()));
        }
        Ok(())
    }

    /// Marks every idle transaction inactive and returns their ids.
    pub fn deactivate_idle_txns(&mut self) -> (ids: Vec<u64>)
        ensures
            ids@.no_duplicates(),
            forall|t: u64| #[trigger] ids@.contains(t) <==> (old(self).txns@.contains_key(t) && idle(old(self).txns@[t], old(self).txn_queues@, t)),
            final(self).txns@.dom() == old(self).txns@.dom(),
            forall|t: u64| #[trigger] final(self).txns@.contains_key(t) ==> final(self).txns@[t] == if idle(old(self).txns@[t], old(self).txn_queues@, t) {
                TxnHandle { active: false, ..old(self).txns@[t] }
            } else {
                old(self).txns@[t]
            },
            final(self).txn_queues@ == old(self).txn_queues@,
            final(self).ops@ == old(self).ops@,
            final(self).txn_of_request@ == old(self).txn_of_request@,
            final(self).task_epoch == old(self).task_epoch,
    {
        let keys = keys_of(&self.txns);
        let mut ids: Vec<u64> = Vec::new();
        let mut i: usize = 0;
        while i < keys.len()
            invariant
                i <= keys@.len(),
                keys@.no_duplicates(),
                forall|k: u64| #[trigger] keys@.contains(k) <==> old(self).txns@.contains_key(k),
                self.txns@.dom() == old(self).txns@.dom(),
                self.txn_queues@ == old(self).txn_queues@,
                self.ops@ == old(self).ops@,
                self.txn_of_request@ == old(self).txn_of_request@,
                self.task_epoch == old(self).task_epoch,
                ids@.no_duplicates(),
                forall|t: u64| #[trigger] ids@.contains(t) <==> (keys@.subrange(0, i as int).contains(t) && idle(old(self).txns@[t], old(self).txn_queues@, t)),
                forall|t: u64| #[trigger] self.txns@.contains_key(t) ==> self.txns@[t] == if keys@.subrange(0, i as int).contains(t) && idle(old(self).txns@[t], old(self).txn_queues@, t) {
                    TxnHandle { active: false, ..old(self).txns@[t] }
                } else {
                    old(self).txns@[t]
                },
            decreases keys@.len() - i,
        {
            let t = keys[i];
            assert(old(self).txns@.contains_key(t)) by {
                assert(keys@.contains(t));
            }
            assert(!keys@.subrange(0, i as int).contains(t)) by {
                if keys@.subrange(0, i as int).contains(t) {
                    let j = keys@.subrange(0, i as int).index_of(t);
                    assert(keys@[j] == keys@[i as int]);
                }
            }
            let queued = match self.txn_queues.get(&t) {
                Some(q) => q.len(),
                None => 0,
            };
            let h = self.txns.remove(&t).unwrap();
            let is_idle = !h.finished && h.active && h.mode != TxnMode::VersionChange && queued == 0;
            assert(is_idle == idle(old(self).txns@[t], old(self).txn_queues@, t));
            let ghost old_ids = ids@;
            if is_idle {
                assert(!ids@.contains(t));
                let mut h2 = h;
                h2.active = false;
                self.txns.insert(t, h2);
                ids.push(t);
            } else {
                self.txns.insert(t, h);
            }
            proof {
                assert forall|k: u64| #[trigger] keys@.subrange(0, i + 1).contains(k) <==> (keys@.subrange(0, i as int).contains(k) || k == t) by {
                    if keys@.subrange(0, i as int).contains(k) {
                        let j = keys@.subrange(0, i as int).index_of(k);
                        assert(keys@.subrange(0, i + 1)[j] == k);
                    }
                    if k == t {
                        assert(keys@.subrange(0, i + 1)[i as int] == t);
                    }
                    if keys@.subrange(0, i + 1).contains(k) && k != t {
                        let j = keys@.subrange(0, i + 1).index_of(k);
                        assert(keys@.subrange(0, i as int)[j] == k);
                    }
                }
                assert forall|k: u64| #[trigger] ids@.contains(k) <==> (keys@.subrange(0, i + 1).contains(k) && idle(old(self).txns@[k], old(self).txn_queues@, k)) by {
                    if is_idle {
                        assert(ids@ == old_ids.push(t));
                        if old_ids.contains(k) {
                            let j = old_ids.index_of(k);
                            assert(ids@[j] == k);
                        }
                        if ids@.contains(k) && k != t {
                            let j = ids@.index_of(k);
                            assert(old_ids[j] == k);
                        }
                        if k == t {
                            assert(ids@[ids@.len() - 1] == t);
                        }
                    }
                }
            }
            i = i + 1;
        }
        proof {
            assert(keys@.subrange(0, keys@.len() as int) =~= keys@);
        }
        ids
    }

    /// End of a task: every handle goes inactive. Returns the ids of the
    /// unfinished ones (their objects learn it too).
    pub fn deactivate_all_txns(&mut self) -> (ids: Vec<u64>)
        ensures
            ids@.no_duplicates(),
            forall|t: u64| #[trigger] ids@.contains(t) <==> (old(self).txns@.contains_key(t) && !old(self).txns@[t].finished),
            final(self).txns@.dom() == old(self).txns@.dom(),
            forall|t: u64| #[trigger] final(self).txns@.contains_key(t) ==> final(self).txns@[t] == (TxnHandle { active: false, ..old(self).txns@[t] }),
            final(self).txn_queues@ == old(self).txn_queues@,
            final(self).ops@ == old(self).ops@,
            final(self).txn_of_request@ == old(self).txn_of_request@,
            final(self).task_epoch == old(self).task_epoch,
    {
        let keys = keys_of(&self.txns);
        let mut ids: Vec<u64> = Vec::new();
        let mut i: usize = 0;
        while i < keys.len()
            invariant
                i <= keys@.len(),
                keys@.no_duplicates(),
                forall|k: u64| #[trigger] keys@.contains(k) <==> old(self).txns@.contains_key(k),
                self.txns@.dom() == old(self).txns@.dom(),
                self.txn_queues@ == old(self).txn_queues@,
                self.ops@ == old(self).ops@,
                self.txn_of_request@ == old(self).txn_of_request@,
                self.task_epoch == old(self).task_epoch,
                ids@.no_duplicates(),
                forall|t: u64| #[trigger] ids@.contains(t) <==> (keys@.subrange(0, i as int).contains(t) && !old(self).txns@[t].finished),
                forall|t: u64| #[trigger] self.txns@.contains_key(t) ==> self.txns@[t] == if keys@.subrange(0, i as int).contains(t) {
                    TxnHandle { active: false, ..old(self).txns@[t] }
                } else {
                    old(self).txns@[t]
                },
            decreases keys@.len() - i,
        {
            let t = keys[i];
            assert(old(self).txns@.contains_key(t)) by {
                assert(keys@.contains(t));
            }
            assert(!keys@.subrange(0, i as int).contains(t)) by {
                if keys@.subrange(0, i as int).contains(t) {
                    let j = keys@.subrange(0, i as int).index_of(t);
                    assert(keys@[j] == keys@[i as int]);
                }
            }
            let mut h = self.txns.remove(&t).unwrap();
            let unfinished = !h.finished;
            h.active = false;
            self.txns.insert(t, h);
            let ghost old_ids = ids@;
            if unfinished {
                assert(!ids@.contains(t));
                ids.push(t);
            }
            proof {
                assert forall|k: u64| #[trigger] keys@.subrange(0, i + 1).contains(k) <==> (keys@.subrange(0, i as int).contains(k) || k == t) by {
                    if keys@.subrange(0, i as int).contains(k) {
                        let j = keys@.subrange(0, i as int).index_of(k);
                        assert(keys@.subrange(0, i + 1)[j] == k);
                    }
                    if k == t {
                        assert(keys@.subrange(0, i + 1)[i as int] == t);
                    }
                    if keys@.subrange(0, i + 1).contains(k) && k != t {
                        let j = keys@.subrange(0, i + 1).index_of(k);
                        assert(keys@.subrange(0, i as int)[j] == k);
                    }
                }
                assert forall|k: u64| #[trigger] ids@.contains(k) <==> (keys@.subrange(0, i + 1).contains(k) && !old(self).txns@[k].finished) by {
                    if unfinished {
                        assert(ids@ == old_ids.push(t));
                        if old_ids.contains(k) {
                            let j = old_ids.index_of(k);
                            assert(ids@[j] == k);
                        }
                        if ids@.contains(k) && k != t {
                            let j = ids@.index_of(k);
                            assert(old_ids[j] == k);
                        }
                        if k == t {
                            assert(ids@[ids@.len() - 1] == t);
                        }
                    }
                }
            }
            i = i + 1;
        }
        proof {
            assert(keys@.subrange(0, keys@.len() as int) =~= keys@);
        }
        ids
    }

    /// Takes out the lowest-id transaction that may auto-commit now.
    pub fn take_finishable_txn(&mut self) -> (r: Option<TxnHandle>)
        ensures
            match r {
                Some(h) => exists|b: u64| {
                    &&& #[trigger] old(self).txns@.contains_key(b)
                    &&& h == old(self).txns@[b]
                    &&& finishable(h, old(self).txn_queues@, b)
                    &&& forall|t: u64| #[trigger] old(self).txns@.contains_key(t) && finishable(old(self).txns@[t], old(self).txn_queues@, t) ==> b <= t
                    &&& final(self).txns@ == old(self).txns@.remove(b)
                },
                None => {
                    &&& forall|t: u64| #[trigger] old(self).txns@.contains_key(t) ==> !finishable(old(self).txns@[t], old(self).txn_queues@, t)
                    &&& final(self).txns@ == old(self).txns@
                },
            },
            final(self).txn_queues@ == old(self).txn_queues@,
            final(self).ops@ == old(self).ops@,
            final(self).txn_of_request@ == old(self).txn_of_request@,
            final(self).task_epoch == old(self).task_epoch,
    {
        let keys = keys_of(&self.txns);
        let mut best: Option<u64> = None;
        let mut i: usize = 0;
        while i < keys.len()
            invariant
                i <= keys@.len(),
                forall|k: u64| #[trigger] keys@.contains(k) <==> self.txns@.contains_key(k),
                self.txns@ == old(self).txns@,
                self.txn_queues@ == old(self).txn_queues@,
                best matches Some(b) ==> self.txns@.contains_key(b) && finishable(self.txns@[b], self.txn_queues@, b),
                forall|j: int| 0 <= j < i ==> (#[trigger] finishable(self.txns@[keys@[j]], self.txn_queues@, keys@[j]) ==> (best matches Some(b) && b <= keys@[j])),
            decreases keys@.len() - i,
        {
            let t = keys[i];
            assert(self.txns@.contains_key(t)) by {
                assert(keys@.contains(t));
            }
            let queued = match self.txn_queues.get(&t) {
                Some(q) => q.len(),
                None => 0,
            };
            let h = self.txns.get(&t).unwrap();
            let ok = !h.finished && h.started && h.mode != TxnMode::VersionChange && (!h.active
                || h.explicit_commit) && queued == 0;
            assert(ok == finishable(self.txns@[t], self.txn_queues@, t));
            if ok {
                best = match best {
                    Some(b) => if t < b {
                        Some(t)
                    } else {
                        Some(b)
                    },
                    None => Some(t),
                };
            }
            i = i + 1;
        }
        match best {
            Some(b) => {
                proof {
                    assert forall|t: u64| #[trigger] old(self).txns@.contains_key(t) && finishable(old(self).txns@[t], old(self).txn_queues@, t) implies b <= t by {
                        assert(keys@.contains(t));
                        let j = keys@.index_of(t);
                        assert(finishable(self.txns@[keys@[j]], self.txn_queues@, keys@[j]));
                    }
                }
                let h = self.txns.remove(&b).unwrap();
                assert(old(self).txns@.contains_key(b));
                Some(h)
            },
            None => {
                proof {
                    assert forall|t: u64| #[trigger] old(self).txns@.contains_key(t) implies !finishable(old(self).txns@[t], old(self).txn_queues@, t) by {
                        assert(keys@.contains(t));
                        let j = keys@.index_of(t);
                        if finishable(self.txns@[keys@[j]], self.txn_queues@, keys@[j]) {
                        }
                    }
                }
                None
            },
        }
    }

    /// Takes the next unit of queue work, serving each transaction at most
    /// once per `served` set: the head request of a started, live
    /// transaction, or a queue that can never run (unknown or finished
    /// handle). Transactions are visited in the map's iteration order.
    pub fn take_next_work(&mut self, served: &mut Vec<u64>) -> (r: Option<TxnWork>)
        ensures
            final(self).txns@ == old(self).txns@,
            final(self).txn_queues@.dom() == old(self).txn_queues@.dom(),
            old(self).queues_consistent() ==> final(self).queues_consistent(),
            forall|t: u64| #[trigger] old(served)@.contains(t) ==> final(served)@.contains(t),
            forall|t: u64| #[trigger] final(served)@.contains(t) ==> old(served)@.contains(t)
                || old(self).txn_queues@.contains_key(t),
            match r {
                Some(TxnWork::Exec { txn_id, request_id, op }) => {
                    let q = queue_of(old(self).txn_queues@, txn_id);
                    &&& old(self).txn_queues@.contains_key(txn_id)
                    &&& !old(served)@.contains(txn_id)
                    &&& final(served)@.contains(txn_id)
                    &&& old(self).txns@.contains_key(txn_id)
                    &&& old(self).txns@[txn_id].started
                    &&& !old(self).txns@[txn_id].finished
                    &&& q.len() > 0
                    &&& request_id == q[0]
                    &&& old(self).ops@.contains_key(request_id)
                    &&& op == old(self).ops@[request_id]
                    &&& queue_of(final(self).txn_queues@, txn_id) == q.drop_first()
                    &&& final(self).ops@ == old(self).ops@.remove(request_id)
                    &&& final(self).txn_of_request@ == old(self).txn_of_request@.remove(request_id)
                    &&& forall|t: u64| t != txn_id ==> kept_or_lost(old(self).txn_queues@, final(self).txn_queues@, old(self).ops@, t)
                },
                Some(TxnWork::FailStalled { txn_id }) => {
                    &&& old(self).txn_queues@.contains_key(txn_id)
                    &&& ((!old(served)@.contains(txn_id) && !old(self).txns@.contains_key(txn_id))
                        || (old(self).txns@.contains_key(txn_id) && old(self).txns@[txn_id].finished))
                    &&& final(self).ops@ == old(self).ops@
                    &&& final(self).txn_of_request@ == old(self).txn_of_request@
                    &&& forall|t: u64| kept_or_lost(old(self).txn_queues@, final(self).txn_queues@, old(self).ops@, t)
                },
                None => {
                    &&& forall|t: u64| #[trigger] old(self).txn_queues@.contains_key(t) ==> final(served)@.contains(t)
                    &&& forall|t: u64| #[trigger] old(self).txn_queues@.contains_key(t) ==> old(self).txns@.contains_key(t)
                        || old(served)@.contains(t)
                    &&& forall|t: u64| #[trigger] old(self).txn_queues@.contains_key(t) && old(self).txns@.contains_key(t)
                        ==> !old(self).txns@[t].finished
                    &&& final(self).ops@ == old(self).ops@
                    &&& final(self).txn_of_request@ == old(self).txn_of_request@
                    &&& forall|t: u64| kept_or_lost(old(self).txn_queues@, final(self).txn_queues@, old(self).ops@, t)
                },
            },
    {
        let keys = keys_of(&self.txn_queues);
        let mut i: usize = 0;
        while i < keys.len()
            invariant
                i <= keys@.len(),
                forall|k: u64| #[trigger] keys@.contains(k) <==> old(self).txn_queues@.contains_key(k),
                self.txns@ == old(self).txns@,
                self.ops@ == old(self).ops@,
                self.txn_of_request@ == old(self).txn_of_request@,
                self.txn_queues@.dom() == old(self).txn_queues@.dom(),
                forall|t: u64| kept_or_lost(old(self).txn_queues@, self.txn_queues@, old(self).ops@, t),
                forall|t: u64| #[trigger] old(served)@.contains(t) ==> served@.contains(t),
                forall|t: u64| #[trigger] served@.contains(t) ==> old(served)@.contains(t)
                    || old(self).txn_queues@.contains_key(t),
                forall|j: int| 0 <= j < i ==> served@.contains(#[trigger] keys@[j]),
                forall|j: int| 0 <= j < i ==> old(self).txns@.contains_key(#[trigger] keys@[j])
                    || old(served)@.contains(keys@[j]),
                keys@.no_duplicates(),
                forall|x: u64| #[trigger] served@.contains(x) ==> old(served)@.contains(x)
                    || keys@.subrange(0, i as int).contains(x),
                forall|x: u64| !keys@.subrange(0, i as int).contains(x) ==> #[trigger] queue_of(self.txn_queues@, x)
                    == queue_of(old(self).txn_queues@, x),
            decreases keys@.len() - i,
        {
            let t = keys[i];
            assert(old(self).txn_queues@.contains_key(t)) by {
                assert(keys@.contains(t));
            }
            assert(!keys@.subrange(0, i as int).contains(t)) by {
                if keys@.subrange(0, i as int).contains(t) {
                    let j = keys@.subrange(0, i as int).index_of(t);
                    assert(keys@[j] == keys@[i as int]);
                }
            }
            proof {
                assert forall|k: u64| #[trigger] keys@.subrange(0, i + 1).contains(k) <==> (keys@.subrange(0, i as int).contains(k) || k == t) by {
                    if keys@.subrange(0, i as int).contains(k) {
                        let j = keys@.subrange(0, i as int).index_of(k);
                        assert(keys@.subrange(0, i + 1)[j] == k);
                    }
                    if k == t {
                        assert(keys@.subrange(0, i + 1)[i as int] == t);
                    }
                    if keys@.subrange(0, i + 1).contains(k) && k != t {
                        let j = keys@.subrange(0, i + 1).index_of(k);
                        assert(keys@.subrange(0, i as int)[j] == k);
                    }
                }
            }
            if vec_contains(served, t) {
                i = i + 1;
                continue;
            }
            let ghost served_before = served@;
            served.push(t);
            proof {
                assert forall|x: u64| #[trigger] served_before.contains(x) implies served@.contains(x) by {
                    let j = served_before.index_of(x);
                    assert(served@[j] == x);
                }
                assert forall|x: u64| #[trigger] served@.contains(x) implies served_before.contains(x) || x == t by {
                    let j = served@.index_of(x);
                    if j < served_before.len() {
                        assert(served_before[j] == x);
                    }
                }
                assert(served@[served@.len() - 1] == t);
            }
            let runnable = match self.txns.get(&t) {
                Some(h) => {
                    if !h.finished && h.started {
                        1u8
                    } else {
                        0u8
                    }
                },
                None => 2u8,
            };
            if runnable == 2 {
                proof {
                    if old(self).queues_consistent() {
                        lemma_kept_keeps_consistent(old(self).txn_queues@, self.ops@, self.txn_of_request@, self.txn_queues@);
                    }
                }
                return Some(TxnWork::FailStalled { txn_id: t });
            }
            if runnable == 1 {
                let ghost before = self.txn_queues@;
                assert(queue_of(before, t) == queue_of(old(self).txn_queues@, t));
                let mut q = self.txn_queues.remove(&t).unwrap();
                let ghost q0 = q@;
                let popped = q.pop_front();
                let ghost qv = q@;
                self.txn_queues.insert(t, q);
                proof {
                    assert forall|x: u64| x != t implies #[trigger] queue_of(self.txn_queues@, x) == queue_of(before, x) by {}
                    assert(queue_of(self.txn_queues@, t) == qv);
                }
                match popped {
                    Some(rid) => {
                        match self.ops.remove(&rid) {
                            Some(op) => {
                                self.txn_of_request.remove(&rid);
                                proof {
                                    assert(q0[0] == rid);
                                    assert(qv =~= q0.drop_first());
                                    assert(queue_of(self.txn_queues@, t) == q0.drop_first());
                                    assert forall|x: u64| x != t implies kept_or_lost(old(self).txn_queues@, self.txn_queues@, old(self).ops@, x) by {
                                        assert(kept_or_lost(old(self).txn_queues@, before, old(self).ops@, x));
                                        assert(queue_of(self.txn_queues@, x) == queue_of(before, x));
                                    }
                                    if old(self).queues_consistent() {
                                        lemma_exec_keeps_consistent(
                                            old(self).txn_queues@,
                                            old(self).ops@,
                                            old(self).txn_of_request@,
                                            self.txn_queues@,
                                            t,
                                        );
                                    }
                                }
                                return Some(TxnWork::Exec { txn_id: t, request_id: rid, op });
                            },
                            None => {
                                assert(self.ops@ =~= old(self).ops@);
                                assert(q0[0] == rid);
                                assert(qv =~= q0.drop_first());
                            },
                        }
                    },
                    None => {
                        assert(qv =~= q0);
                    },
                }
                proof {
                    assert forall|x: u64| kept_or_lost(old(self).txn_queues@, self.txn_queues@, old(self).ops@, x) by {
                        if x != t {
                            assert(kept_or_lost(old(self).txn_queues@, before, old(self).ops@, x));
                            assert(queue_of(self.txn_queues@, x) == queue_of(before, x));
                        } else {
                            assert(queue_of(old(self).txn_queues@, t) == q0);
                            if popped.is_none() {
                                assert(queue_of(self.txn_queues@, t) == q0);
                            } else {
                                assert(queue_of(self.txn_queues@, t) == q0.drop_first());
                                assert(!old(self).ops@.contains_key(q0[0]));
                            }
                        }
                    }
                }
            }
            i = i + 1;
        }
        let mut j: usize = 0;
        while j < keys.len()
            invariant
                j <= keys@.len(),
                forall|k: u64| #[trigger] keys@.contains(k) <==> old(self).txn_queues@.contains_key(k),
                self.txns@ == old(self).txns@,
                forall|x: int| 0 <= x < j ==> old(self).txns@.contains_key(#[trigger] keys@[x]) ==> !old(self).txns@[keys@[x]].finished,
                self.ops@ == old(self).ops@,
                self.txn_of_request@ == old(self).txn_of_request@,
                self.txn_queues@.dom() == old(self).txn_queues@.dom(),
                forall|t: u64| kept_or_lost(old(self).txn_queues@, self.txn_queues@, old(self).ops@, t),
                forall|t: u64| #[trigger] old(served)@.contains(t) ==> served@.contains(t),
                forall|t: u64| #[trigger] served@.contains(t) ==> old(served)@.contains(t)
                    || old(self).txn_queues@.contains_key(t),
                forall|x: int| 0 <= x < keys@.len() ==> served@.contains(#[trigger] keys@[x]),
                forall|x: int| 0 <= x < keys@.len() ==> old(self).txns@.contains_key(#[trigger] keys@[x])
                    || old(served)@.contains(keys@[x]),
            decreases keys@.len() - j,
        {
            let t = keys[j];
            let fin = match self.txns.get(&t) {
                Some(h) => h.finished,
                None => false,
            };
            if fin {
                assert(old(self).txn_queues@.contains_key(t)) by {
                    assert(keys@.contains(t));
                }
                proof {
                    if old(self).queues_consistent() {
                        lemma_kept_keeps_consistent(old(self).txn_queues@, self.ops@, self.txn_of_request@, self.txn_queues@);
                    }
                }
                return Some(TxnWork::FailStalled { txn_id: t });
            }
            j = j + 1;
        }
        proof {
            assert forall|t: u64| #[trigger] old(self).txn_queues@.contains_key(t) implies final(served)@.contains(t)
                && (old(self).txns@.contains_key(t) || old(served)@.contains(t))
                && (old(self).txns@.contains_key(t) ==> !old(self).txns@[t].finished) by {
                assert(keys@.contains(t));
                let x = keys@.index_of(t);
                assert(served@.contains(keys@[x]));
            }
            if old(self).queues_consistent() {
                lemma_kept_keeps_consistent(old(self).txn_queues@, self.ops@, self.txn_of_request@, self.txn_queues@);
            }
        }
        None
    }

    /// Removes the queue of `txn_id` and every request-to-transaction
    /// mapping that points at it.
    pub fn forget_txn(&mut self, txn_id: u64)
        ensures
            final(self).txn_queues@ == old(self).txn_queues@.remove(txn_id),
            forall|r: u64| #[trigger] final(self).txn_of_request@.contains_key(r) <==> (
                old(self).txn_of_request@.contains_key(r) && old(self).txn_of_request@[r] != txn_id),
            forall|r: u64| #[trigger] final(self).txn_of_request@.contains_key(r) ==> final(self).txn_of_request@[r]
                == old(self).txn_of_request@[r],
            final(self).txns@ == old(self).txns@,
            final(self).ops@ == old(self).ops@,
            old(self).queues_consistent() ==> final(self).queues_consistent(),
    {
        self.txn_queues.remove(&txn_id);
        let keys = keys_of(&self.txn_of_request);
        let mut i: usize = 0;
        while i < keys.len()
            invariant
                i <= keys@.len(),
                keys@.no_duplicates(),
                forall|k: u64| #[trigger] keys@.contains(k) <==> old(self).txn_of_request@.contains_key(k),
                self.txn_queues@ == old(self).txn_queues@.remove(txn_id),
                self.txns@ == old(self).txns@,
                self.ops@ == old(self).ops@,
                forall|r: u64| #[trigger] self.txn_of_request@.contains_key(r) <==> (
                    old(self).txn_of_request@.contains_key(r) && !(keys@.subrange(0, i as int).contains(r)
                        && old(self).txn_of_request@[r] == txn_id)),
                forall|r: u64| #[trigger] self.txn_of_request@.contains_key(r) ==> self.txn_of_request@[r]
                    == old(self).txn_of_request@[r],
            decreases keys@.len() - i,
        {
            let r = keys[i];
            assert(old(self).txn_of_request@.contains_key(r)) by {
                assert(keys@.contains(r));
            }
            assert(!keys@.subrange(0, i as int).contains(r)) by {
                if keys@.subrange(0, i as int).contains(r) {
                    let j = keys@.subrange(0, i as int).index_of(r);
                    assert(keys@[j] == keys@[i as int]);
                }
            }
            let owner = *self.txn_of_request.get(&r).unwrap();
            if owner == txn_id {
                self.txn_of_request.remove(&r);
            }
            proof {
                assert forall|k: u64| #[trigger] keys@.subrange(0, i + 1).contains(k) <==> (keys@.subrange(0, i as int).contains(k) || k == r) by {
                    if keys@.subrange(0, i as int).contains(k) {
                        let j = keys@.subrange(0, i as int).index_of(k);
                        assert(keys@.subrange(0, i + 1)[j] == k);
                    }
                    if k == r {
                        assert(keys@.subrange(0, i + 1)[i as int] == r);
                    }
                    if keys@.subrange(0, i + 1).contains(k) && k != r {
                        let j = keys@.subrange(0, i + 1).index_of(k);
                        assert(keys@.subrange(0, i as int)[j] == k);
                    }
                }
            }
            i = i + 1;
        }
        proof {
            assert(keys@.subrange(0, keys@.len() as int) =~= keys@);
            if old(self).queues_consistent() {
                lemma_forget_keeps_consistent(
                    old(self).txn_queues@,
                    old(self).ops@,
                    old(self).txn_of_request@,
                    self.txn_of_request@,
                    txn_id,
                );
            }
        }
    }

    /// Empties the queue of `txn_id`: returns its request ids (in queue
    /// order) and drops their ops and transaction mappings.
    pub fn drain_txn_queue(&mut self, txn_id: u64) -> (ids: Vec<u64>)
        ensures
            ids@ == queue_of(old(self).txn_queues@, txn_id),
            final(self).txn_queues@ == old(self).txn_queues@.remove(txn_id),
            final(self).ops@ == old(self).ops@.remove_keys(ids@.to_set()),
            final(self).txn_of_request@ == old(self).txn_of_request@.remove_keys(ids@.to_set()),
            final(self).txns@ == old(self).txns@,
            old(self).queues_consistent() ==> final(self).queues_consistent(),
    {
        let mut ids: Vec<u64> = Vec::new();
        match self.txn_queues.remove(&txn_id) {
            Some(q) => {
                let mut q = q;
                let ghost all = q@;
                while q.len() > 0
                    invariant
                        all == ids@ + q@,
                        self.ops@ == old(self).ops@.remove_keys(ids@.to_set()),
                        self.txn_of_request@ == old(self).txn_of_request@.remove_keys(ids@.to_set()),
                        self.txn_queues@ == old(self).txn_queues@.remove(txn_id),
                        self.txns@ == old(self).txns@,
                    decreases q@.len(),
                {
                    let r = q.pop_front().unwrap();
                    self.ops.remove(&r);
                    self.txn_of_request.remove(&r);
                    let ghost before = ids@;
                    ids.push(r);
                    proof {
                        assert(all =~= ids@ + q@);
                        before.lemma_push_to_set_commute(r);
                        assert(ids@.to_set() =~= before.to_set().insert(r));
                        assert(self.ops@ =~= old(self).ops@.remove_keys(ids@.to_set()));
                        assert(self.txn_of_request@ =~= old(self).txn_of_request@.remove_keys(ids@.to_set()));
                    }
                }
                proof {
                    assert(all =~= ids@);
                }
            },
            None => {
                proof {
                    assert(ids@.to_set() =~= Set::<u64>::empty());
                    assert(self.ops@ =~= old(self).ops@.remove_keys(ids@.to_set()));
                    assert(self.txn_of_request@ =~= old(self).txn_of_request@.remove_keys(ids@.to_set()));
                    assert(self.txn_queues@ =~= old(self).txn_queues@.remove(txn_id));
                }
            },
        }
        proof {
            if old(self).queues_consistent() {
                lemma_drop_queue_keeps_consistent(
                    old(self).txn_queues@,
                    old(self).ops@,
                    old(self).txn_of_request@,
                    self.txn_queues@,
                    self.ops@,
                    self.txn_of_request@,
                    txn_id,
                );
            }
        }
        ids
    }

    /// What starting the backend transaction of `txn_id` needs (database
    /// name, mode, scope, durability), while it is unfinished and not yet
    /// started.
    pub fn start_params(&self, txn_id: u64) -> (r: Option<(String, TxnMode, Vec<u64>, Durability)>)
        ensures
            match r {
                Some((name, mode, scope, durability)) => {
                    let h = self.txns@[txn_id];
                    &&& self.txns@.contains_key(txn_id)
                    &&& !h.finished
                    &&& !h.started
                    &&& name@ == h.db_name@
                    &&& mode == h.mode
                    &&& scope@ == h.scope@
                    &&& durability == h.durability
                },
                None => !self.txns@.contains_key(txn_id) || self.txns@[txn_id].finished || self.txns@[txn_id].started,
            },
    {
        match self.txns.get(&txn_id) {
            Some(h) => {
                if !h.finished && !h.started {
                    Some((h.db_name.clone(), h.mode, h.scope.clone(), h.durability))
                } else {
                    None
                }
            },
            None => None,
        }
    }

    /// Aborts `txn_id` in the driver: takes its handle out, empties its
    /// queue (the queued requests, in order, to be failed with `AbortError`)
    /// and drops every request mapping to it. Nothing changes when the
    /// handle is gone already.
    pub fn abort_txn(&mut self, txn_id: u64) -> (r: Option<(TxnHandle, Vec<u64>)>)
        ensures
            !old(self).txns@.contains_key(txn_id) ==> r is None && *final(self) == *old(self),
            old(self).txns@.contains_key(txn_id) ==> match r {
                Some((h, queued)) => {
                    &&& h == old(self).txns@[txn_id]
                    &&& queued@ == queue_of(old(self).txn_queues@, txn_id)
                    &&& final(self).txns@ == old(self).txns@.remove(txn_id)
                    &&& final(self).txn_queues@ == old(self).txn_queues@.remove(txn_id)
                    &&& final(self).ops@ == old(self).ops@.remove_keys(queued@.to_set())
                    &&& forall|q: u64| #[trigger] final(self).txn_of_request@.contains_key(q) <==> (
                        old(self).txn_of_request@.contains_key(q) && old(self).txn_of_request@[q] != txn_id
                        && !queued@.contains(q))
                    &&& forall|q: u64| #[trigger] final(self).txn_of_request@.contains_key(q)
                        ==> final(self).txn_of_request@[q] == old(self).txn_of_request@[q]
                },
                None => false,
            },
            old(self).queues_consistent() ==> final(self).queues_consistent(),
    {
        if !self.txns.contains_key(&txn_id) {
            return None;
        }
        let h = self.txns.remove(&txn_id).unwrap();
        let queued = self.drain_txn_queue(txn_id);
        let ghost after_drain = self.txn_of_request@;
        self.forget_txn(txn_id);
        proof {
            assert forall|q: u64| #[trigger] self.txn_of_request@.contains_key(q) <==> (
                old(self).txn_of_request@.contains_key(q) && old(self).txn_of_request@[q] != txn_id
                && !queued@.contains(q)) by {
                if queued@.contains(q) {
                    assert(queued@.to_set().contains(q));
                }
                if !queued@.contains(q) {
                    assert(!queued@.to_set().contains(q));
                }
            }
            assert(self.txn_queues@ =~= old(self).txn_queues@.remove(txn_id).remove(txn_id));
            assert(old(self).txn_queues@.remove(txn_id).remove(txn_id) =~= old(self).txn_queues@.remove(txn_id));
        }
        Some((h, queued))
    }

    /// Takes the handle of `txn_id` out of the driver.
    pub fn take_txn(&mut self, txn_id: u64) -> (r: Option<TxnHandle>)
        ensures
            r == (if old(self).txns@.contains_key(txn_id) {
                Some(old(self).txns@[txn_id])
            } else {
                None::<TxnHandle>
            }),
            final(self).txns@ == old(self).txns@.remove(txn_id),
            final(self).txn_queues@ == old(self).txn_queues@,
            final(self).ops@ == old(self).ops@,
            final(self).txn_of_request@ == old(self).txn_of_request@,
    {
        self.txns.remove(&txn_id)
    }
}

/// The queue of `t` is unchanged, or lost its head request whose op was
/// missing.
pub open spec fn kept_or_lost(
    before: Map<u64, VecDeque<u64>>,
    after: Map<u64, VecDeque<u64>>,
    ops: Map<u64, PendingOp>,
    t: u64,
) -> bool {
    ||| queue_of(after, t) == queue_of(before, t)
    ||| {
        &&& queue_of(before, t).len() > 0
        &&& !ops.contains_key(queue_of(before, t)[0])
        &&& queue_of(after, t) == queue_of(before, t).drop_first()
    }
}

/// Membership in a vector of ids.
pub fn vec_contains(v: &Vec<u64>, x: u64) -> (r: bool)
    ensures
        r == v@.contains(x),
{
    let mut i: usize = 0;
    while i < v.len()
        invariant
            i <= v@.len(),
            forall|j: int| 0 <= j < i ==> v@[j] != x,
        decreases v@.len() - i,
    {
        if v[i] == x {
            return true;
        }
        i = i + 1;
    }
    false
}

proof fn lemma_drop_queue_keeps_consistent(
    q0: Map<u64, VecDeque<u64>>,
    ops0: Map<u64, PendingOp>,
    own0: Map<u64, u64>,
    q1: Map<u64, VecDeque<u64>>,
    ops1: Map<u64, PendingOp>,
    own1: Map<u64, u64>,
    t: u64,
)
    requires
        consistent(q0, ops0, own0),
        q1 == q0.remove(t),
        ops1 == ops0.remove_keys(queue_of(q0, t).to_set()),
        own1 == own0.remove_keys(queue_of(q0, t).to_set()),
    ensures
        consistent(q1, ops1, own1),
{
    assert forall|x: u64| #[trigger] queue_of(q1, x).no_duplicates() by {
        if x != t {
            assert(queue_of(q1, x) == queue_of(q0, x));
        } else {
            assert(queue_of(q1, x) =~= Seq::<u64>::empty());
        }
    }
    assert forall|x: u64, i: int|
        #![trigger queue_of(q1, x)[i]]
        0 <= i < queue_of(q1, x).len() implies {
            let r = queue_of(q1, x)[i];
            &&& ops1.contains_key(r)
            &&& own1.contains_key(r)
            &&& own1[r] == x
        } by {
        assert(x != t);
        assert(queue_of(q1, x) == queue_of(q0, x));
        let r = queue_of(q0, x)[i];
        assert(own0[r] == x);
        if queue_of(q0, t).to_set().contains(r) {
            let k = queue_of(q0, t).index_of(r);
            assert(queue_of(q0, t)[k] == r);
        }
    }
}

proof fn lemma_forget_keeps_consistent(
    q0: Map<u64, VecDeque<u64>>,
    ops: Map<u64, PendingOp>,
    own0: Map<u64, u64>,
    own1: Map<u64, u64>,
    t: u64,
)
    requires
        consistent(q0, ops, own0),
        forall|r: u64| #[trigger] own1.contains_key(r) <==> (own0.contains_key(r) && own0[r] != t),
        forall|r: u64| #[trigger] own1.contains_key(r) ==> own1[r] == own0[r],
    ensures
        consistent(q0.remove(t), ops, own1),
{
    let q1 = q0.remove(t);
    assert forall|x: u64| #[trigger] queue_of(q1, x).no_duplicates() by {
        if x != t {
            assert(queue_of(q1, x) == queue_of(q0, x));
        } else {
            assert(queue_of(q1, x) =~= Seq::<u64>::empty());
        }
    }
    assert forall|x: u64, i: int|
        #![trigger queue_of(q1, x)[i]]
        0 <= i < queue_of(q1, x).len() implies {
            let r = queue_of(q1, x)[i];
            &&& ops.contains_key(r)
            &&& own1.contains_key(r)
            &&& own1[r] == x
        } by {
        assert(x != t);
        assert(queue_of(q1, x) == queue_of(q0, x));
        let r = queue_of(q0, x)[i];
        assert(own0[r] == x);
        assert(own1.contains_key(r));
    }
}

proof fn lemma_kept_keeps_consistent(
    q0: Map<u64, VecDeque<u64>>,
    ops: Map<u64, PendingOp>,
    own: Map<u64, u64>,
    q1: Map<u64, VecDeque<u64>>,
)
    requires
        consistent(q0, ops, own),
        forall|t: u64| kept_or_lost(q0, q1, ops, t),
    ensures
        consistent(q1, ops, own),
        forall|t: u64| #[trigger] queue_of(q1, t) == queue_of(q0, t),
{
    assert forall|t: u64| #[trigger] queue_of(q1, t) == queue_of(q0, t) by {
        assert(kept_or_lost(q0, q1, ops, t));
        if queue_of(q0, t).len() > 0 {
            assert(ops.contains_key(queue_of(q0, t)[0]));
        }
    }
}

proof fn lemma_exec_keeps_consistent(
    q0: Map<u64, VecDeque<u64>>,
    ops: Map<u64, PendingOp>,
    own: Map<u64, u64>,
    q1: Map<u64, VecDeque<u64>>,
    t: u64,
)
    requires
        consistent(q0, ops, own),
        queue_of(q0, t).len() > 0,
        queue_of(q1, t) == queue_of(q0, t).drop_first(),
        forall|x: u64| x != t ==> kept_or_lost(q0, q1, ops, x),
    ensures
        consistent(q1, ops.remove(queue_of(q0, t)[0]), own.remove(queue_of(q0, t)[0])),
{
    let q = queue_of(q0, t);
    let r = q[0];
    assert forall|x: u64| x != t implies #[trigger] queue_of(q1, x) == queue_of(q0, x) by {
        assert(kept_or_lost(q0, q1, ops, x));
        if queue_of(q0, x).len() > 0 {
            assert(ops.contains_key(queue_of(q0, x)[0]));
        }
    }
    assert forall|x: u64| #[trigger] queue_of(q1, x).no_duplicates() by {
        if x == t {
            assert(q.no_duplicates());
            assert forall|a: int, b: int| 0 <= a < b < q.drop_first().len() implies q.drop_first()[a] != q.drop_first()[b] by {
                assert(q[a + 1] != q[b + 1]);
            }
        } else {
            assert(queue_of(q1, x) == queue_of(q0, x));
        }
    }
    assert forall|x: u64, i: int|
        #![trigger queue_of(q1, x)[i]]
        0 <= i < queue_of(q1, x).len() implies {
            let e = queue_of(q1, x)[i];
            &&& ops.remove(r).contains_key(e)
            &&& own.remove(r).contains_key(e)
            &&& own.remove(r)[e] == x
        } by {
        if x == t {
            let e = q[i + 1];
            assert(queue_of(q1, x)[i] == e);
            assert(q.no_duplicates());
            assert(q[0] != q[i + 1]);
            assert(ops.contains_key(e) && own.contains_key(e) && own[e] == t);
        } else {
            assert(queue_of(q1, x) == queue_of(q0, x));
            let e = queue_of(q0, x)[i];
            assert(own[e] == x);
            assert(own[r] == t);
            assert(e != r);
        }
    }
}

} // verus!
