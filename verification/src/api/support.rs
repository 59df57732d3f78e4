//! Guards shared by the store, index and cursor methods: is the handle's
//! schema still live, and may its transaction take new requests.

use vstd::prelude::*;

use crate::driver::DriverState;
use crate::error::{message_of, IdbError};
use crate::proto::{spec_store_of, SourceRef};
use crate::schema::{IndexMeta, StoreMeta};
use crate::txn::store_id_live;
use crate::upgrade::{first_store_with_id, lemma_first_store_with_id};

verus! {

broadcast use vstd::std_specs::hash::group_hash_axioms;

/// A failure of an API call: a DOM exception, or a JavaScript `TypeError`.
#[derive(Debug)]
pub enum ApiError {
    Idb(IdbError),
    Type(String),
}

/// The message an API failure carries.
pub open spec fn api_message(e: ApiError) -> Seq<char> {
    match e {
        ApiError::Idb(e) => message_of(e),
        ApiError::Type(m) => m@,
    }
}

/// `(txn_id, active, finished, explicit_commit)` of a transaction object.
pub type TxnFlags = (u64, bool, bool, bool);

/// The transaction of a handle accepts new requests: its id when it is
/// active, unfinished and not explicitly committed; `TransactionInactive`
/// otherwise, and a `TypeError` when there is no transaction object.
pub fn active_txn_id(flags: Option<TxnFlags>) -> (r: Result<u64, ApiError>)
    ensures
        match flags {
            None => r matches Err(ApiError::Type(m)) && m@ == "Transaction object expected"@,
            Some((id, active, finished, explicit)) => if active && !finished && !explicit {
                r == Ok::<u64, ApiError>(id)
            } else {
                r matches Err(ApiError::Idb(e)) && e is TransactionInactive
            },
        },
{
    match flags {
        Some((id, active, finished, explicit)) => {
            if active && !finished && !explicit {
                Ok(id)
            } else {
                Err(ApiError::Idb(IdbError::TransactionInactive))
            }
        },
        None => Err(ApiError::Type("Transaction object expected".to_string())),
    }
}

/// Some live index of `indexes` has id `index_id`.
pub open spec fn has_live_index_id(indexes: Seq<IndexMeta>, index_id: u64) -> bool {
    exists|k: int| 0 <= k < indexes.len() && #[trigger] indexes[k].id == index_id && !indexes[k].deleted
}

/// Some live store with id `store_id` has a live index with id `index_id`.
pub open spec fn has_live_index_of(stores: Seq<StoreMeta>, store_id: u64, index_id: u64) -> bool {
    exists|i: int|
        0 <= i < stores.len() && #[trigger] stores[i].id == store_id && !stores[i].deleted
            && has_live_index_id(stores[i].indexes@, index_id)
}

fn has_live_index_id_exec(indexes: &Vec<IndexMeta>, index_id: u64) -> (r: bool)
    ensures
        r == has_live_index_id(indexes@, index_id),
{
    let mut k: usize = 0;
    while k < indexes.len()
        invariant
            k <= indexes@.len(),
            forall|j: int| 0 <= j < k ==> !(#[trigger] indexes@[j].id == index_id && !indexes@[j].deleted),
        decreases indexes@.len() - k,
    {
        if indexes[k].id == index_id && !indexes[k].deleted {
            return true;
        }
        k = k + 1;
    }
    false
}

impl DriverState {
    /// A store handle still names a live store. A finished upgrade
    /// transaction took its schema with it; an unfinished transaction must
    /// still hold the store undeleted (`InvalidState` either way).
    pub fn require_live_store(&self, txn_id: u64, finished: bool, is_upgrade: bool, store_id: u64) -> (r: Result<(), IdbError>)
        ensures
            ({
                let dead_upgrade = finished && is_upgrade;
                let gone = !finished && !(self.txns@.contains_key(txn_id)
                    && store_id_live(self.txns@[txn_id].meta.stores@, store_id));
                &&& r is Ok <==> !dead_upgrade && !gone
                &&& r is Err ==> r->Err_0 is InvalidState && message_of(r->Err_0) == if dead_upgrade {
                    "The object store no longer exists."@
                } else {
                    "The object store has been deleted."@
                }
            }),
    {
        if finished && is_upgrade {
            return Err(IdbError::InvalidState("The object store no longer exists.".to_string()));
        }
        if !finished {
            let live = match self.txns.get(&txn_id) {
                Some(h) => {
                    let mut i: usize = 0;
                    let mut found = false;
                    while i < h.meta.stores.len()
                        invariant
                            i <= h.meta.stores@.len(),
                            found == exists|j: int| 0 <= j < i && #[trigger] h.meta.stores@[j].id == store_id && !h.meta.stores@[j].deleted,
                        decreases h.meta.stores@.len() - i,
                    {
                        if h.meta.stores[i].id == store_id && !h.meta.stores[i].deleted {
                            found = true;
                        }
                        i = i + 1;
                    }
                    found
                },
                None => false,
            };
            if !live {
                return Err(IdbError::InvalidState("The object store has been deleted.".to_string()));
            }
        }
        Ok(())
    }

    /// An index handle still names a live index of a live store, with the
    /// same order of checks as `require_live_store`.
    pub fn require_live_index(&self, txn_id: u64, finished: bool, is_upgrade: bool, store_id: u64, index_id: u64) -> (r: Result<(), IdbError>)
        ensures
            ({
                let dead_upgrade = finished && is_upgrade;
                let gone = !finished && !(self.txns@.contains_key(txn_id)
                    && has_live_index_of(self.txns@[txn_id].meta.stores@, store_id, index_id));
                &&& r is Ok <==> !dead_upgrade && !gone
                &&& r is Err ==> r->Err_0 is InvalidState && message_of(r->Err_0) == if dead_upgrade {
                    "The index no longer exists."@
                } else {
                    "The index has been deleted."@
                }
            }),
    {
        if finished && is_upgrade {
            return Err(IdbError::InvalidState("The index no longer exists.".to_string()));
        }
        if !finished {
            let live = match self.txns.get(&txn_id) {
                Some(h) => {
                    let mut i: usize = 0;
                    let mut found = false;
                    while i < h.meta.stores.len()
                        invariant
                            i <= h.meta.stores@.len(),
                            found == exists|j: int| 0 <= j < i && #[trigger] h.meta.stores@[j].id == store_id && !h.meta.stores@[j].deleted
                                && has_live_index_id(h.meta.stores@[j].indexes@, index_id),
                        decreases h.meta.stores@.len() - i,
                    {
                        let s = &h.meta.stores[i];
                        if s.id == store_id && !s.deleted && has_live_index_id_exec(&s.indexes, index_id) {
                            found = true;
                        }
                        i = i + 1;
                    }
                    found
                },
                None => false,
            };
            if !live {
                return Err(IdbError::InvalidState("The index has been deleted.".to_string()));
            }
        }
        Ok(())
    }

    /// The source of cursor `cursor_id` is still live in transaction
    /// `txn_id` (a transaction that is gone does not count against it),
    /// and the transaction is still there.
    pub open spec fn cursor_source_live(&self, cursor_id: u64, txn_id: u64) -> bool {
        let c = self.cursors@[cursor_id];
        let stores = self.txns@[txn_id].meta.stores@;
        let i = first_store_with_id(stores, spec_store_of(c.source));
        &&& self.cursors@.contains_key(cursor_id)
        &&& self.txns@.contains_key(txn_id) ==> {
            &&& i < stores.len()
            &&& !stores[i].deleted
            &&& (c.source matches SourceRef::Index { index, .. } ==> has_live_index_id(stores[i].indexes@, index))
        }
    }

    /// A cursor may still move or write: `InvalidState` when its source
    /// was deleted, `TransactionInactive` when its transaction is gone.
    pub fn require_live_cursor(&self, cursor_id: u64, txn_id: u64) -> (r: Result<(), IdbError>)
        ensures
            !self.cursor_source_live(cursor_id, txn_id) ==> (r matches Err(e) && e is InvalidState
                && message_of(e) == "The cursor source has been deleted."@),
            self.cursor_source_live(cursor_id, txn_id) ==> if self.txns@.contains_key(txn_id) {
                r is Ok
            } else {
                r matches Err(e) && e is TransactionInactive
            },
    {
        let c = match self.cursors.get(&cursor_id) {
            Some(c) => c,
            None => {
                return Err(IdbError::InvalidState("The cursor source has been deleted.".to_string()));
            },
        };
        match self.txns.get(&txn_id) {
            None => Err(IdbError::TransactionInactive),
            Some(txn) => {
                let sid = crate::proto::store_of(c.source);
                match crate::schema::find_store_by_id(&txn.meta.stores, sid) {
                    None => {
                        proof {
                            lemma_first_store_with_id(txn.meta.stores@, sid, txn.meta.stores@.len() as int);
                        }
                        Err(IdbError::InvalidState("The cursor source has been deleted.".to_string()))
                    },
                    Some(i) => {
                        proof {
                            lemma_first_store_with_id(txn.meta.stores@, sid, i as int);
                        }
                        let store = &txn.meta.stores[i];
                        let live = if store.deleted {
                            false
                        } else {
                            match c.source {
                                SourceRef::Store(_) => true,
                                SourceRef::Index { index, .. } => has_live_index_id_exec(&store.indexes, index),
                            }
                        };
                        if live {
                            Ok(())
                        } else {
                            Err(IdbError::InvalidState("The cursor source has been deleted.".to_string()))
                        }
                    },
                }
            },
        }
    }
}

/// A `count` argument: 0 means no limit.
pub fn count_limit(count: u32) -> (r: Option<u32>)
    ensures
        r == (if count == 0 { None } else { Some(count) }),
{
    if count == 0 {
        None
    } else {
        Some(count)
    }
}

} // verus!
