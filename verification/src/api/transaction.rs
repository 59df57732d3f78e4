//! Checks and lookups behind the `IDBTransaction` methods.

use vstd::prelude::*;

use crate::driver::DriverState;
use crate::error::{message_of, IdbError};
use crate::proto::Durability;
use crate::schema::{StoreMeta, StoreView};
use crate::text::concat3;
use crate::upgrade::{first_store_with_id, visible_store};

verus! {

broadcast use vstd::std_specs::hash::group_hash_axioms;

/// `abort()` is allowed only on an active, unfinished transaction that was
/// not explicitly committed.
pub fn abort_check(active: bool, finished: bool, explicit_commit: bool) -> (r: Result<(), IdbError>)
    ensures
        r is Ok <==> active && !finished && !explicit_commit,
        r is Err ==> r->Err_0 is InvalidState
            && message_of(r->Err_0) == "The transaction cannot be aborted in its current state."@,
{
    if finished || explicit_commit || !active {
        Err(IdbError::InvalidState("The transaction cannot be aborted in its current state.".to_string()))
    } else {
        Ok(())
    }
}

/// Durability name, as the `durability` attribute reports it.
pub fn durability_name(durability: Durability) -> (r: &'static str)
    ensures
        r@ == spec_durability_name(durability),
{
    match durability {
        Durability::Default => "default",
        Durability::Strict => "strict",
        Durability::Relaxed => "relaxed",
    }
}

pub open spec fn spec_durability_name(durability: Durability) -> Seq<char> {
    match durability {
        Durability::Default => "default"@,
        Durability::Strict => "strict"@,
        Durability::Relaxed => "relaxed"@,
    }
}

/// Names of the live stores of `stores` whose id is in `scope`, in schema
/// order.
pub open spec fn scope_names(stores: Seq<StoreMeta>, scope: Seq<u64>) -> Seq<Seq<char>>
    decreases stores.len(),
{
    if stores.len() == 0 {
        Seq::empty()
    } else {
        let rest = scope_names(stores.drop_last(), scope);
        if !stores.last().deleted && scope.contains(stores.last().id) {
            rest.push(stores.last().name@)
        } else {
            rest
        }
    }
}

/// Store `i` is live and its id is in the scope.
pub open spec fn live_in_scope(stores: Seq<StoreMeta>, scope: Seq<u64>, i: int) -> bool {
    0 <= i < stores.len() && !stores[i].deleted && scope.contains(stores[i].id)
}

/// A transaction lists exactly its stores: every listed name is the name
/// of a live store whose id is in the scope, and every such store's name
/// is listed, once per store, in schema order.
pub proof fn lemma_scope_names_are_scoped_stores(stores: Seq<StoreMeta>, scope: Seq<u64>)
    ensures
        forall|k: int| 0 <= k < scope_names(stores, scope).len() ==> exists|i: int|
            live_in_scope(stores, scope, i) && #[trigger] scope_names(stores, scope)[k] == stores[i].name@,
        forall|i: int| live_in_scope(stores, scope, i) ==> scope_names(stores, scope).contains(#[trigger] stores[i].name@),
        scope_names(stores, scope).len() <= stores.len(),
    decreases stores.len(),
{
    if stores.len() > 0 {
        let prev = stores.drop_last();
        lemma_scope_names_are_scoped_stores(prev, scope);
        let rest = scope_names(prev, scope);
        let names = scope_names(stores, scope);
        let last = stores.len() - 1;
        assert forall|k: int| 0 <= k < names.len() implies exists|i: int|
            live_in_scope(stores, scope, i) && #[trigger] names[k] == stores[i].name@ by {
            if k < rest.len() {
                assert(names[k] == rest[k]);
                let i = choose|i: int| live_in_scope(prev, scope, i) && #[trigger] rest[k] == prev[i].name@;
                assert(live_in_scope(stores, scope, i) && names[k] == stores[i].name@);
            } else {
                assert(live_in_scope(stores, scope, last) && names[k] == stores[last].name@);
            }
        }
        assert forall|i: int| live_in_scope(stores, scope, i) implies names.contains(#[trigger] stores[i].name@) by {
            if i < last {
                assert(live_in_scope(prev, scope, i));
                assert(rest.contains(prev[i].name@));
                let k = choose|k: int| 0 <= k < rest.len() && rest[k] == prev[i].name@;
                assert(names[k] == rest[k]);
            } else {
                assert(names[names.len() - 1] == stores[i].name@);
            }
        }
    }
}

/// `names` holds the name of each live store in the scope, and nothing
/// but such names.
pub open spec fn listed_exactly(names: Seq<String>, stores: Seq<StoreMeta>, scope: Seq<u64>) -> bool {
    &&& forall|k: int| #![trigger names[k]] 0 <= k < names.len() ==> exists|i: int|
        #![trigger stores[i]] live_in_scope(stores, scope, i) && names[k]@ == stores[i].name@
    &&& forall|i: int| #![trigger stores[i]] live_in_scope(stores, scope, i) ==> exists|k: int|
        #![trigger names[k]] 0 <= k < names.len() && names[k]@ == stores[i].name@
}

proof fn lemma_listed_exactly(names: Seq<String>, stores: Seq<StoreMeta>, scope: Seq<u64>)
    requires
        names.map_values(|s: String| s@) == scope_names(stores, scope),
    ensures
        listed_exactly(names, stores, scope),
{
    lemma_scope_names_are_scoped_stores(stores, scope);
    let v = scope_names(stores, scope);
    assert(names.len() == v.len());
    assert forall|k: int| #![trigger names[k]] 0 <= k < names.len() implies exists|i: int|
        #![trigger stores[i]] live_in_scope(stores, scope, i) && names[k]@ == stores[i].name@ by {
        assert(names[k]@ == v[k]);
        let i = choose|i: int| live_in_scope(stores, scope, i) && #[trigger] v[k] == stores[i].name@;
        assert(live_in_scope(stores, scope, i) && names[k]@ == stores[i].name@);
    }
    assert forall|i: int| #![trigger stores[i]] live_in_scope(stores, scope, i) implies exists|k: int|
        #![trigger names[k]] 0 <= k < names.len() && names[k]@ == stores[i].name@ by {
        assert(v.contains(stores[i].name@));
        let k = choose|k: int| 0 <= k < v.len() && v[k] == stores[i].name@;
        assert(names[k]@ == v[k]);
    }
}

impl DriverState {
    /// `objectStoreNames` of a transaction: the live stores of its
    /// snapshot that are in `scope` (nothing when it is unknown).
    pub fn scope_store_names(&self, txn_id: u64, scope: &Vec<u64>) -> (r: Vec<String>)
        ensures
            r@.map_values(|s: String| s@) == if self.txns@.contains_key(txn_id) {
                scope_names(self.txns@[txn_id].meta.stores@, scope@)
            } else {
                Seq::empty()
            },
            self.txns@.contains_key(txn_id) ==> listed_exactly(r@, self.txns@[txn_id].meta.stores@, scope@),
    {
        let mut out: Vec<String> = Vec::new();
        match self.txns.get(&txn_id) {
            Some(h) => {
                let stores = &h.meta.stores;
                let mut i: usize = 0;
                while i < stores.len()
                    invariant
                        i <= stores@.len(),
                        out@.map_values(|s: String| s@) == scope_names(stores@.subrange(0, i as int), scope@),
                    decreases stores@.len() - i,
                {
                    proof {
                        assert(stores@.subrange(0, i + 1).drop_last() =~= stores@.subrange(0, i as int));
                    }
                    if !stores[i].deleted && crate::upgrade::vec_has(scope, stores[i].id) {
                        out.push(stores[i].name.clone());
                    }
                    proof {
                        assert(out@.map_values(|s: String| s@) =~= scope_names(stores@.subrange(0, i + 1), scope@));
                    }
                    i = i + 1;
                }
                proof {
                    assert(stores@.subrange(0, stores@.len() as int) =~= stores@);
                    lemma_listed_exactly(out@, stores@, scope@);
                }
            },
            None => {
                assert(out@.map_values(|s: String| s@) =~= Seq::empty());
            },
        }
        out
    }

    /// `objectStore(name)`: `InvalidState` once the transaction finished,
    /// otherwise the snapshot of the visible store named `name`, or
    /// `NotFound`.
    pub fn object_store_lookup(&self, txn_id: u64, finished: bool, name: &str) -> (r: Result<StoreMeta, IdbError>)
        ensures
            finished ==> (r matches Err(e) && e is InvalidState && message_of(e) == "The transaction is finished."@),
            !finished ==> match r {
                Ok(m) => {
                    let h = self.txns@[txn_id];
                    &&& self.txns@.contains_key(txn_id)
                    &&& !h.finished
                    &&& exists|i: int| {
                        &&& #[trigger] visible_store(h, i, name@)
                        &&& m@ == h.meta.stores@[first_store_with_id(h.meta.stores@, h.meta.stores@[i].id)]@
                        &&& forall|j: int| 0 <= j < i ==> !visible_store(h, j, name@)
                    }
                },
                Err(e) => e is NotFound && (!self.txns@.contains_key(txn_id) || self.txns@[txn_id].finished
                    || forall|i: int| !#[trigger] visible_store(self.txns@[txn_id], i, name@))
                    && message_of(e) == "Object store '"@ + name@ + "' not found in transaction scope"@,
            },
    {
        if finished {
            return Err(IdbError::InvalidState("The transaction is finished.".to_string()));
        }
        let not_found = concat3("Object store '", name, "' not found in transaction scope");
        match self.txn_store_id(txn_id, name) {
            Ok(sid) => match self.txn_store_view(txn_id, sid) {
                Ok(m) => Ok(m),
                Err(_) => {
                    proof {
                        let h = self.txns@[txn_id];
                        let i = choose|i: int| {
                            &&& #[trigger] visible_store(h, i, name@)
                            &&& h.meta.stores@[i].id == sid
                            &&& forall|j: int| 0 <= j < i ==> !visible_store(h, j, name@)
                        };
                        crate::upgrade::lemma_first_store_with_id_le(h.meta.stores@, sid, i);
                    }
                    Err(IdbError::NotFound(not_found))
                },
            },
            Err(_) => Err(IdbError::NotFound(not_found)),
        }
    }
}

} // verus!
