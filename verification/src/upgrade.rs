//! Schema changes inside a versionchange transaction: the checks that
//! precede each backend call and the snapshot updates that follow it, plus
//! the scope-checked store and index lookups of every transaction.

use vstd::prelude::*;

use crate::driver::{DriverState, TxnHandle};
use crate::error::{message_of, IdbError};
use crate::proto::TxnMode;
use crate::schema::{
    find_live_index, find_live_store, find_store_by_id, has_live_index, has_live_store, index_names,
    live_index_named, live_index_names, live_store_named, live_store_names, store_names, string_views,
    IndexMeta, IndexView, KeyPath, KeyPathView, StoreMeta, StoreView,
};
use crate::text::{concat3, decimal, decimal_string};

verus! {

broadcast use vstd::std_specs::hash::group_hash_axioms;

/// A versionchange handle that can still change the schema.
pub open spec fn live_upgrade(h: TxnHandle) -> bool {
    !h.finished && h.mode == TxnMode::VersionChange && h.started
}

/// All fields but the schema snapshot agree.
pub open spec fn same_but_meta(a: TxnHandle, b: TxnHandle) -> bool {
    &&& a.txn_id == b.txn_id
    &&& a.conn_id == b.conn_id
    &&& a.db_name == b.db_name
    &&& a.mode == b.mode
    &&& a.scope == b.scope
    &&& a.durability == b.durability
    &&& a.started == b.started
    &&& a.finished == b.finished
    &&& a.active == b.active
    &&& a.active_epoch == b.active_epoch
    &&& a.explicit_commit == b.explicit_commit
    &&& a.deleted_store_ids == b.deleted_store_ids
    &&& a.meta.name == b.meta.name
    &&& a.meta.version == b.meta.version
}

/// Store `i` is visible in a transaction: live, and in scope unless the
/// transaction is a versionchange one.
pub open spec fn visible_store(h: TxnHandle, i: int, name: Seq<char>) -> bool {
    &&& live_store_named(h.meta.stores@, i, name)
    &&& (h.mode == TxnMode::VersionChange || h.scope@.contains(h.meta.stores@[i].id))
}

/// Tombstone name given to a deleted store until the upgrade commits.
pub open spec fn tombstone(txn_id: u64, store_id: u64) -> Seq<char> {
    "\u{0}boa-deleted-"@ + decimal(txn_id as nat) + "-"@ + decimal(store_id as nat)
}

/// Writes the tombstone name of store `store_id` deleted by `txn_id`.
pub fn tombstone_name(txn_id: u64, store_id: u64) -> (r: String)
    ensures
        r@ == tombstone(txn_id, store_id),
{
    let mut out = concat3("\u{0}boa-deleted-", decimal_string(txn_id).as_str(), "-");
    out.append(decimal_string(store_id).as_str());
    out
}

/// Index of the first store with id `id` (`len` when none).
pub open spec fn first_store_with_id(stores: Seq<StoreMeta>, id: u64) -> int
    decreases stores.len(),
{
    if stores.len() == 0 {
        0
    } else if stores[0].id == id {
        0
    } else {
        1 + first_store_with_id(stores.drop_first(), id)
    }
}

pub(crate) proof fn lemma_first_store_with_id(stores: Seq<StoreMeta>, id: u64, i: int)
    requires
        0 <= i <= stores.len(),
        i < stores.len() ==> stores[i].id == id,
        forall|j: int| 0 <= j < i ==> stores[j].id != id,
    ensures
        first_store_with_id(stores, id) == i,
    decreases i,
{
    if i > 0 {
        lemma_first_store_with_id(stores.drop_first(), id, i - 1);
    }
}

pub(crate) proof fn lemma_first_store_with_id_le(stores: Seq<StoreMeta>, id: u64, i: int)
    requires
        0 <= i < stores.len(),
        stores[i].id == id,
    ensures
        first_store_with_id(stores, id) <= i,
    decreases i,
{
    if i > 0 && stores[0].id != id {
        lemma_first_store_with_id_le(stores.drop_first(), id, i - 1);
    }
}

/// How a schema operation refuses a transaction that is not a live
/// upgrade: `TransactionInactive` for an unknown one, otherwise
/// `InvalidState`.
pub open spec fn upgrade_refusal(e: IdbError, known: bool) -> bool {
    if known {
        e is InvalidState && message_of(e) == "Schema operations require a live versionchange transaction"@
    } else {
        e is TransactionInactive
    }
}

impl DriverState {
    /// The handle of `txn_id` can change the schema.
    pub open spec fn upgrade_ok(&self, txn_id: u64) -> bool {
        self.txns@.contains_key(txn_id) && live_upgrade(self.txns@[txn_id])
    }

    /// Requires a live upgrade transaction handle: `TransactionInactive`
    /// for an unknown transaction, `InvalidState` for any other kind.
    pub fn upgrade_check(&self, txn_id: u64) -> (r: Result<(), IdbError>)
        ensures
            r is Ok <==> self.upgrade_ok(txn_id),
            r matches Err(e) ==> upgrade_refusal(e, self.txns@.contains_key(txn_id)),
    {
        match self.txns.get(&txn_id) {
            Some(h) => {
                if !h.finished && h.mode == TxnMode::VersionChange && h.started {
                    Ok(())
                } else {
                    Err(IdbError::InvalidState("Schema operations require a live versionchange transaction".to_string()))
                }
            },
            None => Err(IdbError::TransactionInactive),
        }
    }

    /// Resolves a store id by name within a transaction (scope-checked,
    /// except for versionchange which sees every store).
    pub fn txn_store_id(&self, txn_id: u64, name: &str) -> (r: Result<u64, IdbError>)
        ensures
            !self.txns@.contains_key(txn_id) || self.txns@[txn_id].finished ==> (r matches Err(e) && e is TransactionInactive),
            self.txns@.contains_key(txn_id) && !self.txns@[txn_id].finished ==> match r {
                Ok(id) => exists|i: int| {
                    &&& #[trigger] visible_store(self.txns@[txn_id], i, name@)
                    &&& self.txns@[txn_id].meta.stores@[i].id == id
                    &&& forall|j: int| 0 <= j < i ==> !visible_store(self.txns@[txn_id], j, name@)
                },
                Err(e) => e is NotFound && message_of(e) == "Object store '"@ + name@ + "' not found"@
                    && forall|i: int| !#[trigger] visible_store(self.txns@[txn_id], i, name@),
            },
    {
        let h = match self.txns.get(&txn_id) {
            Some(h) => h,
            None => {
                return Err(IdbError::TransactionInactive);
            },
        };
        if h.finished {
            return Err(IdbError::TransactionInactive);
        }
        let mut i: usize = 0;
        while i < h.meta.stores.len()
            invariant
                i <= h.meta.stores@.len(),
                self.txns@.contains_key(txn_id),
                *h == self.txns@[txn_id],
                !h.finished,
                forall|j: int| 0 <= j < i ==> !visible_store(*h, j, name@),
            decreases h.meta.stores@.len() - i,
        {
            let s = &h.meta.stores[i];
            let in_scope = h.mode == TxnMode::VersionChange || vec_has(&h.scope, s.id);
            if !s.deleted && in_scope && crate::text::str_eq(s.name.as_str(), name) {
                assert(visible_store(*h, i as int, name@));
                return Ok(s.id);
            }
            i = i + 1;
        }
        Err(IdbError::NotFound(concat3("Object store '", name, "' not found")))
    }

    /// Returns a snapshot of a store (deleted ones too) of a live
    /// transaction.
    pub fn txn_store_view(&self, txn_id: u64, store_id: u64) -> (r: Result<StoreMeta, IdbError>)
        ensures
            match r {
                Ok(m) => {
                    let h = self.txns@[txn_id];
                    &&& self.txns@.contains_key(txn_id)
                    &&& !h.finished
                    &&& first_store_with_id(h.meta.stores@, store_id) < h.meta.stores@.len()
                    &&& m@ == h.meta.stores@[first_store_with_id(h.meta.stores@, store_id)]@
                },
                Err(e) => e is NotFound && message_of(e) == "Object store id "@ + decimal(store_id as nat) + " not found"@
                    && (!self.txns@.contains_key(txn_id) || self.txns@[txn_id].finished
                    || first_store_with_id(self.txns@[txn_id].meta.stores@, store_id) == self.txns@[txn_id].meta.stores@.len()),
            },
    {
        let h = match self.txns.get(&txn_id) {
            Some(h) => h,
            None => {
                return Err(IdbError::NotFound(concat3("Object store id ", decimal_string(store_id).as_str(), " not found")));
            },
        };
        if !h.finished {
            match find_store_by_id(&h.meta.stores, store_id) {
                Some(i) => {
                    proof {
                        lemma_first_store_with_id(h.meta.stores@, store_id, i as int);
                    }
                    return Ok(h.meta.stores[i].duplicate());
                },
                None => {
                    proof {
                        lemma_first_store_with_id(h.meta.stores@, store_id, h.meta.stores@.len() as int);
                    }
                },
            }
        }
        Err(IdbError::NotFound(concat3("Object store id ", decimal_string(store_id).as_str(), " not found")))
    }

    /// Returns a snapshot of a live index of a live store.
    pub fn store_index_view(&self, txn_id: u64, store_id: u64, index_name: &str) -> (r: Result<IndexMeta, IdbError>)
        ensures
            ({
                let h = self.txns@[txn_id];
                let i = first_live_with_id(h.meta.stores@, store_id);
                let found = self.txns@.contains_key(txn_id) && !h.finished && i < h.meta.stores@.len()
                    && first_live_index_named(h.meta.stores@[i].indexes@, index_name@) < h.meta.stores@[i].indexes@.len();
                match r {
                    Ok(m) => found && m@ == h.meta.stores@[i].indexes@[first_live_index_named(h.meta.stores@[i].indexes@, index_name@)]@,
                    Err(e) => !found && e is NotFound && message_of(e) == "Index '"@ + index_name@ + "' not found"@,
                }
            }),
    {
        let h = match self.txns.get(&txn_id) {
            Some(h) => h,
            None => {
                return Err(IdbError::NotFound(concat3("Index '", index_name, "' not found")));
            },
        };
        if !h.finished {
            let mut i: usize = 0;
            while i < h.meta.stores.len()
                invariant
                    i <= h.meta.stores@.len(),
                    self.txns@.contains_key(txn_id),
                    *h == self.txns@[txn_id],
                    !h.finished,
                    forall|k: int| 0 <= k < i ==> !(h.meta.stores@[k].id == store_id && !h.meta.stores@[k].deleted),
                decreases h.meta.stores@.len() - i,
            {
                if h.meta.stores[i].id == store_id && !h.meta.stores[i].deleted {
                    proof {
                        lemma_first_live_with_id(h.meta.stores@, store_id, i as int);
                    }
                    match find_live_index(&h.meta.stores[i].indexes, index_name) {
                        Some(j) => {
                            proof {
                                lemma_first_live_index_named(h.meta.stores@[i as int].indexes@, index_name@, j as int);
                            }
                            return Ok(h.meta.stores[i].indexes[j].duplicate());
                        },
                        None => {
                            proof {
                                lemma_first_live_index_named(h.meta.stores@[i as int].indexes@, index_name@, h.meta.stores@[i as int].indexes@.len() as int);
                            }
                            return Err(IdbError::NotFound(concat3("Index '", index_name, "' not found")));
                        },
                    }
                }
                i = i + 1;
            }
            proof {
                lemma_first_live_with_id(h.meta.stores@, store_id, h.meta.stores@.len() as int);
            }
        }
        Err(IdbError::NotFound(concat3("Index '", index_name, "' not found")))
    }
}

impl DriverState {
    /// The handles other than `txn_id` are untouched and `txn_id` keeps
    /// everything but its schema snapshot.
    pub open spec fn only_meta_changed(&self, old: &DriverState, txn_id: u64) -> bool {
        &&& self.txns@.dom() == old.txns@.dom()
        &&& forall|t: u64| t != txn_id && #[trigger] old.txns@.contains_key(t) ==> self.txns@[t] == old.txns@[t]
        &&& same_but_meta(self.txns@[txn_id], old.txns@[txn_id])
        &&& self.txn_queues@ == old.txn_queues@
        &&& self.ops@ == old.ops@
        &&& self.txn_of_request@ == old.txn_of_request@
    }

    /// Checks `createObjectStore(name, {keyPath, autoIncrement})` before
    /// the backend creates the store.
    pub fn schema_check_create_store(&self, txn_id: u64, name: &str, key_path: &Option<KeyPath>, auto_increment: bool) -> (r: Result<(), IdbError>)
        ensures
            ({
                let bad_key_path = auto_increment && key_path is Some && !(key_path->0 is Single);
                match r {
                    Ok(()) => !bad_key_path && self.upgrade_ok(txn_id) && !has_live_store(self.txns@[txn_id].meta.stores@, name@),
                    Err(e) => if bad_key_path {
                        e is InvalidAccess && message_of(e) == "autoIncrement requires a single non-empty keyPath"@
                    } else if !self.txns@.contains_key(txn_id) {
                        e is TransactionInactive
                    } else if !self.upgrade_ok(txn_id) {
                        upgrade_refusal(e, true)
                    } else {
                        e is Constraint && has_live_store(self.txns@[txn_id].meta.stores@, name@)
                            && message_of(e) == "Object store '"@ + name@ + "' already exists"@
                    },
                }
            }),
    {
        let bad_key_path = match key_path {
            Some(KeyPath::Single(_)) => false,
            Some(_) => auto_increment,
            None => false,
        };
        if bad_key_path {
            return Err(IdbError::InvalidAccess("autoIncrement requires a single non-empty keyPath".to_string()));
        }
        self.upgrade_check(txn_id)?;
        let h = self.txns.get(&txn_id).unwrap();
        match find_live_store(&h.meta.stores, name) {
            Some(_) => Err(IdbError::Constraint(concat3("Object store '", name, "' already exists"))),
            None => Ok(()),
        }
    }

    /// Adds the store the backend created (id `id`) to the upgrade
    /// snapshot and returns a copy of its metadata.
    pub fn schema_add_store(&mut self, txn_id: u64, id: u64, name: String, key_path: KeyPath, auto_increment: bool) -> (r: Result<StoreMeta, IdbError>)
        requires
            id < u64::MAX,
        ensures
            r is Ok <==> old(self).upgrade_ok(txn_id),
            r matches Err(e) ==> upgrade_refusal(e, old(self).txns@.contains_key(txn_id))
                && final(self).txns@ == old(self).txns@,
            r matches Ok(m) ==> {
                let oh = old(self).txns@[txn_id];
                let nh = final(self).txns@[txn_id];
                let added = StoreView { id, name: name@, key_path: key_path@, auto_increment, indexes: Seq::empty(), deleted: false };
                &&& final(self).only_meta_changed(old(self), txn_id)
                &&& nh.meta.next_index_id == oh.meta.next_index_id
                &&& nh.meta.next_store_id == (if id >= oh.meta.next_store_id { (id + 1) as u64 } else { oh.meta.next_store_id })
                &&& nh.meta.stores@.len() == oh.meta.stores@.len() + 1
                &&& forall|j: int| 0 <= j < oh.meta.stores@.len() ==> #[trigger] nh.meta.stores@[j] == oh.meta.stores@[j]
                &&& nh.meta.stores@.last()@ == added
                &&& m@ == added
            },
    {
        self.upgrade_check(txn_id)?;
        let mut h = self.txns.remove(&txn_id).unwrap();
        let meta = StoreMeta { id, name, key_path, auto_increment, indexes: Vec::new(), deleted: false };
        let copy = meta.duplicate();
        if id >= h.meta.next_store_id {
            h.meta.next_store_id = id + 1;
        }
        h.meta.stores.push(meta);
        self.txns.insert(txn_id, h);
        proof {
            assert(copy@.indexes =~= Seq::<IndexView>::empty());
        }
        Ok(copy)
    }

    /// Resolves a live store by name in the upgrade transaction.
    pub fn schema_find_store(&self, txn_id: u64, name: &str) -> (r: Result<u64, IdbError>)
        ensures
            match r {
                Ok(id) => {
                    let stores = self.txns@[txn_id].meta.stores@;
                    let i = first_live_store_named(stores, name@);
                    &&& self.upgrade_ok(txn_id)
                    &&& i < stores.len()
                    &&& live_store_named(stores, i, name@)
                    &&& stores[i].id == id
                },
                Err(e) => if !self.txns@.contains_key(txn_id) {
                    e is TransactionInactive
                } else if !self.upgrade_ok(txn_id) {
                    upgrade_refusal(e, true)
                } else {
                    e is NotFound && !has_live_store(self.txns@[txn_id].meta.stores@, name@)
                        && message_of(e) == "Object store '"@ + name@ + "' not found"@
                },
            },
    {
        self.upgrade_check(txn_id)?;
        let h = self.txns.get(&txn_id).unwrap();
        match find_live_store(&h.meta.stores, name) {
            Some(i) => {
                proof {
                    lemma_first_live_store_named(h.meta.stores@, name@, i as int);
                }
                Ok(h.meta.stores[i].id)
            },
            None => Err(IdbError::NotFound(concat3("Object store '", name, "' not found"))),
        }
    }

    /// Marks store `store_id` deleted in the upgrade snapshot and defers
    /// its physical removal to the upgrade commit.
    pub fn schema_mark_store_deleted(&mut self, txn_id: u64, store_id: u64) -> (r: Result<(), IdbError>)
        ensures
            r is Ok <==> old(self).upgrade_ok(txn_id),
            r matches Err(e) ==> upgrade_refusal(e, old(self).txns@.contains_key(txn_id))
                && final(self).txns@ == old(self).txns@,
            r is Ok ==> {
                let oh = old(self).txns@[txn_id];
                let nh = final(self).txns@[txn_id];
                let i = first_store_with_id(oh.meta.stores@, store_id);
                &&& final(self).txns@.dom() == old(self).txns@.dom()
                &&& forall|t: u64| t != txn_id && #[trigger] old(self).txns@.contains_key(t) ==> final(self).txns@[t] == old(self).txns@[t]
                &&& final(self).txn_queues@ == old(self).txn_queues@
                &&& final(self).ops@ == old(self).ops@
                &&& final(self).txn_of_request@ == old(self).txn_of_request@
                &&& nh.txn_id == oh.txn_id && nh.mode == oh.mode && nh.scope == oh.scope && nh.started == oh.started
                &&& nh.finished == oh.finished && nh.active == oh.active && nh.active_epoch == oh.active_epoch
                &&& nh.deleted_store_ids@ == oh.deleted_store_ids@.push(store_id)
                &&& nh.meta.name == oh.meta.name
                &&& nh.meta.version == oh.meta.version
                &&& nh.meta.next_store_id == oh.meta.next_store_id
                &&& nh.meta.next_index_id == oh.meta.next_index_id
                &&& nh.meta.stores@.len() == oh.meta.stores@.len()
                &&& forall|j: int| 0 <= j < oh.meta.stores@.len() && j != i ==> #[trigger] nh.meta.stores@[j] == oh.meta.stores@[j]
                &&& i < oh.meta.stores@.len() ==> nh.meta.stores@[i]@ == StoreView { deleted: true, ..oh.meta.stores@[i]@ }
            },
    {
        self.upgrade_check(txn_id)?;
        let mut h = self.txns.remove(&txn_id).unwrap();
        let ghost old_stores = h.meta.stores@;
        match find_store_by_id(&h.meta.stores, store_id) {
            Some(i) => {
                proof {
                    lemma_first_store_with_id(old_stores, store_id, i as int);
                }
                let mut st = h.meta.stores.remove(i);
                st.deleted = true;
                h.meta.stores.insert(i, st);
            },
            None => {
                proof {
                    lemma_first_store_with_id(old_stores, store_id, old_stores.len() as int);
                }
            },
        }
        h.deleted_store_ids.push(store_id);
        self.txns.insert(txn_id, h);
        Ok(())
    }

    /// Checks `renameObjectStore(old, new)`: the old name must be live and
    /// the new one free. Returns the store id.
    pub fn schema_check_rename_store(&self, txn_id: u64, current_name: &str, new_name: &str) -> (r: Result<u64, IdbError>)
        ensures
            match r {
                Ok(id) => {
                    let stores = self.txns@[txn_id].meta.stores@;
                    let i = first_live_store_named(stores, current_name@);
                    &&& self.upgrade_ok(txn_id)
                    &&& i < stores.len()
                    &&& stores[i].id == id
                    &&& !has_live_store(stores, new_name@)
                },
                Err(e) => if !self.txns@.contains_key(txn_id) {
                    e is TransactionInactive
                } else if !self.upgrade_ok(txn_id) {
                    upgrade_refusal(e, true)
                } else if !has_live_store(self.txns@[txn_id].meta.stores@, current_name@) {
                    e is NotFound && message_of(e) == "Object store '"@ + current_name@ + "' not found"@
                } else {
                    e is Constraint && has_live_store(self.txns@[txn_id].meta.stores@, new_name@)
                        && message_of(e) == "Object store '"@ + new_name@ + "' already exists"@
                },
            },
    {
        let id = match self.schema_find_store(txn_id, current_name) {
            Ok(id) => id,
            Err(e) => {
                return Err(e);
            },
        };
        let h = self.txns.get(&txn_id).unwrap();
        match find_live_store(&h.meta.stores, new_name) {
            Some(_) => Err(IdbError::Constraint(concat3("Object store '", new_name, "' already exists"))),
            None => {
                assert(self.upgrade_ok(txn_id));
                assert(first_live_store_named(h.meta.stores@, current_name@) < h.meta.stores@.len());
                assert(h.meta.stores@[first_live_store_named(h.meta.stores@, current_name@)].id == id);
                assert(!has_live_store(h.meta.stores@, new_name@));
                assert(*h == self.txns@[txn_id]);
                let r: Result<u64, IdbError> = Ok(id);
                assert(r matches Ok(x) && x == id);
                r
            },
        }
    }

    /// Renames store `store_id` in the upgrade snapshot.
    pub fn schema_apply_rename_store(&mut self, txn_id: u64, store_id: u64, new_name: String) -> (r: Result<(), IdbError>)
        ensures
            r is Ok <==> old(self).upgrade_ok(txn_id),
            r matches Err(e) ==> upgrade_refusal(e, old(self).txns@.contains_key(txn_id))
                && final(self).txns@ == old(self).txns@,
            r is Ok ==> {
                let oh = old(self).txns@[txn_id];
                let nh = final(self).txns@[txn_id];
                let i = first_store_with_id(oh.meta.stores@, store_id);
                &&& final(self).only_meta_changed(old(self), txn_id)
                &&& nh.meta.next_store_id == oh.meta.next_store_id
                &&& nh.meta.next_index_id == oh.meta.next_index_id
                &&& nh.meta.stores@.len() == oh.meta.stores@.len()
                &&& forall|j: int| 0 <= j < oh.meta.stores@.len() && j != i ==> #[trigger] nh.meta.stores@[j] == oh.meta.stores@[j]
                &&& i < oh.meta.stores@.len() ==> nh.meta.stores@[i]@ == StoreView { name: new_name@, ..oh.meta.stores@[i]@ }
            },
    {
        self.upgrade_check(txn_id)?;
        let mut h = self.txns.remove(&txn_id).unwrap();
        let ghost old_stores = h.meta.stores@;
        match find_store_by_id(&h.meta.stores, store_id) {
            Some(i) => {
                proof {
                    lemma_first_store_with_id(old_stores, store_id, i as int);
                }
                let mut st = h.meta.stores.remove(i);
                st.name = new_name;
                h.meta.stores.insert(i, st);
            },
            None => {
                proof {
                    lemma_first_store_with_id(old_stores, store_id, old_stores.len() as int);
                }
            },
        }
        self.txns.insert(txn_id, h);
        Ok(())
    }
}

/// Index of the first live store with id `id` (`len` when none).
pub open spec fn first_live_with_id(stores: Seq<StoreMeta>, id: u64) -> int
    decreases stores.len(),
{
    if stores.len() == 0 {
        0
    } else if stores[0].id == id && !stores[0].deleted {
        0
    } else {
        1 + first_live_with_id(stores.drop_first(), id)
    }
}

pub(crate) proof fn lemma_first_live_with_id(stores: Seq<StoreMeta>, id: u64, i: int)
    requires
        0 <= i <= stores.len(),
        i < stores.len() ==> stores[i].id == id && !stores[i].deleted,
        forall|j: int| 0 <= j < i ==> !(stores[j].id == id && !stores[j].deleted),
    ensures
        first_live_with_id(stores, id) == i,
    decreases i,
{
    if i > 0 {
        lemma_first_live_with_id(stores.drop_first(), id, i - 1);
    }
}

/// Index of the first live index named `name` (`len` when none).
pub open spec fn first_live_index_named(indexes: Seq<IndexMeta>, name: Seq<char>) -> int
    decreases indexes.len(),
{
    if indexes.len() == 0 {
        0
    } else if !indexes[0].deleted && indexes[0].name@ == name {
        0
    } else {
        1 + first_live_index_named(indexes.drop_first(), name)
    }
}

pub(crate) proof fn lemma_first_live_index_named(indexes: Seq<IndexMeta>, name: Seq<char>, i: int)
    requires
        0 <= i <= indexes.len(),
        i < indexes.len() ==> live_index_named(indexes, i, name),
        forall|j: int| 0 <= j < i ==> !live_index_named(indexes, j, name),
    ensures
        first_live_index_named(indexes, name) == i,
    decreases i,
{
    if i > 0 {
        assert forall|j: int| 0 <= j < i - 1 implies !live_index_named(indexes.drop_first(), j, name) by {
            assert(!live_index_named(indexes, j + 1, name));
        }
        assert(!live_index_named(indexes, 0, name));
        if i < indexes.len() {
            assert(live_index_named(indexes.drop_first(), i - 1, name));
        }
        lemma_first_live_index_named(indexes.drop_first(), name, i - 1);
    }
}

/// Index of the first live store named `name` (`len` when none).
pub open spec fn first_live_store_named(stores: Seq<StoreMeta>, name: Seq<char>) -> int
    decreases stores.len(),
{
    if stores.len() == 0 {
        0
    } else if !stores[0].deleted && stores[0].name@ == name {
        0
    } else {
        1 + first_live_store_named(stores.drop_first(), name)
    }
}

pub(crate) proof fn lemma_first_live_store_named(stores: Seq<StoreMeta>, name: Seq<char>, i: int)
    requires
        0 <= i <= stores.len(),
        i < stores.len() ==> live_store_named(stores, i, name),
        forall|j: int| 0 <= j < i ==> !live_store_named(stores, j, name),
    ensures
        first_live_store_named(stores, name) == i,
    decreases i,
{
    if i > 0 {
        assert forall|j: int| 0 <= j < i - 1 implies !live_store_named(stores.drop_first(), j, name) by {
            assert(!live_store_named(stores, j + 1, name));
        }
        assert(!live_store_named(stores, 0, name));
        if i < stores.len() {
            assert(live_store_named(stores.drop_first(), i - 1, name));
        }
        lemma_first_live_store_named(stores.drop_first(), name, i - 1);
    }
}

/// Membership in a vector of ids.
pub fn vec_has(v: &Vec<u64>, x: u64) -> (r: bool)
    ensures
        r == v@.contains(x),
{
    let mut i: usize = 0;
    while i < v.len()
        invariant
            i <= v@.len(),
            forall|j: int| 0 <= j < i ==> v@[j] != x,
        decreases v@.len() - i,
    {
        if v[i] == x {
            return true;
        }
        i = i + 1;
    }
    false
}

/// No two live stores share a name.
pub open spec fn store_names_unique(stores: Seq<StoreMeta>) -> bool {
    forall|i: int, j: int|
        0 <= i < j < stores.len() && !stores[i].deleted && !stores[j].deleted ==> stores[i].name@ != stores[j].name@
}

/// Adding a store under a name that no live store has (what
/// `schema_check_create_store` makes sure of before `schema_add_store`
/// appends it) keeps live store names unique.
pub proof fn lemma_add_store_keeps_names_unique(old_stores: Seq<StoreMeta>, new_stores: Seq<StoreMeta>)
    requires
        store_names_unique(old_stores),
        new_stores.len() == old_stores.len() + 1,
        forall|j: int| 0 <= j < old_stores.len() ==> #[trigger] new_stores[j] == old_stores[j],
        !has_live_store(old_stores, new_stores.last().name@),
    ensures
        store_names_unique(new_stores),
{
    assert forall|i: int, j: int|
        0 <= i < j < new_stores.len() && !new_stores[i].deleted && !new_stores[j].deleted implies new_stores[i].name@ != new_stores[j].name@ by {
        if j == old_stores.len() {
            assert(!live_store_named(old_stores, i, new_stores.last().name@));
        } else {
            assert(new_stores[i] == old_stores[i]);
            assert(new_stores[j] == old_stores[j]);
        }
    }
}

/// Renaming a store to a name that no live store has (checked by
/// `schema_check_rename_store`), or marking it deleted, keeps live store
/// names unique; after the deletion its old name is free again.
pub proof fn lemma_store_edit_keeps_names_unique(
    old_stores: Seq<StoreMeta>,
    new_stores: Seq<StoreMeta>,
    i: int,
)
    requires
        store_names_unique(old_stores),
        0 <= i < old_stores.len(),
        new_stores.len() == old_stores.len(),
        forall|j: int| 0 <= j < old_stores.len() && j != i ==> #[trigger] new_stores[j] == old_stores[j],
        new_stores[i].deleted || (new_stores[i].deleted == old_stores[i].deleted && !has_live_store(old_stores, new_stores[i].name@)),
    ensures
        store_names_unique(new_stores),
        new_stores[i].deleted && live_store_named(old_stores, i, old_stores[i].name@)
            ==> !has_live_store(new_stores, old_stores[i].name@),
{
    assert forall|a: int, b: int|
        0 <= a < b < new_stores.len() && !new_stores[a].deleted && !new_stores[b].deleted implies new_stores[a].name@ != new_stores[b].name@ by {
        if a == i {
            assert(!live_store_named(old_stores, b, new_stores[i].name@));
        } else if b == i {
            assert(!live_store_named(old_stores, a, new_stores[i].name@));
        } else {
            assert(new_stores[a] == old_stores[a]);
            assert(new_stores[b] == old_stores[b]);
        }
    }
    if new_stores[i].deleted && live_store_named(old_stores, i, old_stores[i].name@) {
        assert forall|k: int| !live_store_named(new_stores, k, old_stores[i].name@) by {
            if 0 <= k < new_stores.len() && k != i {
                assert(new_stores[k] == old_stores[k]);
                if !old_stores[k].deleted {
                    if k < i {
                        assert(old_stores[k].name@ != old_stores[i].name@);
                    } else {
                        assert(old_stores[i].name@ != old_stores[k].name@);
                    }
                }
            }
        }
    }
}

} // verus!
