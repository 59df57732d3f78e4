//! Index changes inside a versionchange transaction: the checks that
//! precede each backend call, the snapshot updates that follow it, and the
//! name listings that the API objects expose.

use vstd::prelude::*;

use crate::driver::DriverState;
use crate::error::{message_of, IdbError};
use crate::schema::{
    find_index_by_id, find_live_index, find_live_store_by_id, find_store_by_id, has_live_index,
    has_live_store, index_names, live_index_names, live_store_named, live_store_names, store_names,
    string_views, IndexMeta, IndexView, KeyPath, StoreMeta, StoreView,
};
use crate::text::concat3;
use crate::upgrade::{
    first_live_index_named, first_live_store_named, first_live_with_id, first_store_with_id,
    lemma_first_live_index_named, lemma_first_live_with_id, lemma_first_store_with_id,
    upgrade_refusal,
};

verus! {

broadcast use vstd::std_specs::hash::group_hash_axioms;

/// Index of the first index with id `id` (`len` when none).
pub open spec fn first_index_with_id(indexes: Seq<IndexMeta>, id: u64) -> int
    decreases indexes.len(),
{
    if indexes.len() == 0 {
        0
    } else if indexes[0].id == id {
        0
    } else {
        1 + first_index_with_id(indexes.drop_first(), id)
    }
}

proof fn lemma_first_index_with_id(indexes: Seq<IndexMeta>, id: u64, i: int)
    requires
        0 <= i <= indexes.len(),
        i < indexes.len() ==> indexes[i].id == id,
        forall|j: int| 0 <= j < i ==> indexes[j].id != id,
    ensures
        first_index_with_id(indexes, id) == i,
    decreases i,
{
    if i > 0 {
        lemma_first_index_with_id(indexes.drop_first(), id, i - 1);
    }
}

/// A change to one index of the upgrade snapshot.
pub enum IndexEdit {
    /// `deleteIndex`: the entry stays, marked deleted.
    MarkDeleted,
    /// `index.name = ..`.
    Rename(String),
}

/// The index after an edit.
pub open spec fn edited(iv: IndexView, e: IndexEdit) -> IndexView {
    match e {
        IndexEdit::MarkDeleted => IndexView { deleted: true, ..iv },
        IndexEdit::Rename(n) => IndexView { name: n@, ..iv },
    }
}

/// The store after an edit of its index with id `index_id` (unchanged
/// when it has none).
pub open spec fn store_with_edit(s: StoreMeta, index_id: u64, e: IndexEdit) -> StoreView {
    let k = first_index_with_id(s.indexes@, index_id);
    if k < s.indexes@.len() {
        StoreView { indexes: s@.indexes.update(k, edited(s.indexes@[k]@, e)), ..s@ }
    } else {
        s@
    }
}

impl DriverState {
    /// Handles other than `txn_id` and the request bookkeeping are
    /// untouched, and `txn_id` changes only in its list of stores.
    pub open spec fn only_stores_changed(&self, old: &DriverState, txn_id: u64) -> bool {
        let oh = old.txns@[txn_id];
        let nh = self.txns@[txn_id];
        &&& self.only_meta_changed(old, txn_id)
        &&& nh.meta.next_store_id == oh.meta.next_store_id
        &&& nh.meta.stores@.len() == oh.meta.stores@.len()
    }

    /// Checks `createIndex(name, keyPath, {multiEntry})` on the store named
    /// `store_name` before the backend creates the index. Returns the
    /// store id.
    pub fn schema_check_create_index(&self, txn_id: u64, store_name: &str, name: &str, key_path: &KeyPath, multi_entry: bool) -> (r: Result<u64, IdbError>)
        ensures
            ({
                let bad_key_path = multi_entry && key_path is Array;
                let stores = self.txns@[txn_id].meta.stores@;
                let i = first_live_store_named(stores, store_name@);
                match r {
                    Ok(sid) => {
                        &&& !bad_key_path
                        &&& self.upgrade_ok(txn_id)
                        &&& i < stores.len()
                        &&& stores[i].id == sid
                        &&& first_store_with_id(stores, sid) < stores.len()
                        &&& !has_live_index(stores[first_store_with_id(stores, sid)].indexes@, name@)
                    },
                    Err(e) => if bad_key_path {
                        e is InvalidAccess && message_of(e) == "multiEntry indexes cannot use an array keyPath"@
                    } else if !self.upgrade_ok(txn_id) {
                        upgrade_refusal(e, self.txns@.contains_key(txn_id))
                    } else if !has_live_store(stores, store_name@) {
                        e is NotFound && message_of(e) == "Object store '"@ + store_name@ + "' not found"@
                    } else {
                        &&& e is Constraint
                        &&& message_of(e) == "Index '"@ + name@ + "' already exists"@
                        &&& has_live_index(stores[first_store_with_id(stores, stores[i].id)].indexes@, name@)
                    },
                }
            }),
    {
        let bad_key_path = match key_path {
            KeyPath::Array(_) => multi_entry,
            _ => false,
        };
        if bad_key_path {
            return Err(IdbError::InvalidAccess("multiEntry indexes cannot use an array keyPath".to_string()));
        }
        let sid = match self.schema_find_store(txn_id, store_name) {
            Ok(sid) => sid,
            Err(e) => {
                return Err(e);
            },
        };
        let h = self.txns.get(&txn_id).unwrap();
        let ghost stores = h.meta.stores@;
        let k = match find_store_by_id(&h.meta.stores, sid) {
            Some(k) => k,
            None => {
                proof {
                    let i = first_live_store_named(stores, store_name@);
                    assert(stores[i].id == sid);
                }
                return Err(IdbError::NotFound("Object store not found".to_string()));
            },
        };
        proof {
            lemma_first_store_with_id(stores, sid, k as int);
        }
        match find_live_index(&h.meta.stores[k].indexes, name) {
            Some(_) => Err(IdbError::Constraint(concat3("Index '", name, "' already exists"))),
            None => Ok(sid),
        }
    }

    /// Adds the index the backend created (id `index_id`) to store
    /// `store_id` of the upgrade snapshot and returns a copy of its
    /// metadata.
    pub fn schema_add_index(
        &mut self,
        txn_id: u64,
        store_id: u64,
        index_id: u64,
        name: String,
        key_path: KeyPath,
        unique: bool,
        multi_entry: bool,
    ) -> (r: Result<IndexMeta, IdbError>)
        requires
            index_id < u64::MAX,
        ensures
            r is Ok <==> old(self).upgrade_ok(txn_id),
            r matches Err(e) ==> upgrade_refusal(e, old(self).txns@.contains_key(txn_id))
                && final(self).txns@ == old(self).txns@,
            r matches Ok(m) ==> {
                let oh = old(self).txns@[txn_id];
                let nh = final(self).txns@[txn_id];
                let i = first_store_with_id(oh.meta.stores@, store_id);
                let added = IndexView { id: index_id, store_id, name: name@, key_path: key_path@, unique, multi_entry, deleted: false };
                &&& final(self).only_stores_changed(old(self), txn_id)
                &&& nh.meta.next_index_id == (if index_id >= oh.meta.next_index_id { (index_id + 1) as u64 } else { oh.meta.next_index_id })
                &&& forall|j: int| 0 <= j < oh.meta.stores@.len() && j != i ==> #[trigger] nh.meta.stores@[j] == oh.meta.stores@[j]
                &&& i < oh.meta.stores@.len() ==> nh.meta.stores@[i]@ == StoreView {
                    indexes: oh.meta.stores@[i]@.indexes.push(added),
                    ..oh.meta.stores@[i]@
                }
                &&& m@ == added
            },
    {
        self.upgrade_check(txn_id)?;
        let mut h = self.txns.remove(&txn_id).unwrap();
        let ghost old_stores = h.meta.stores@;
        let meta = IndexMeta { id: index_id, store_id, name, key_path, unique, multi_entry, deleted: false };
        let copy = meta.duplicate();
        if index_id >= h.meta.next_index_id {
            h.meta.next_index_id = index_id + 1;
        }
        match find_store_by_id(&h.meta.stores, store_id) {
            Some(i) => {
                proof {
                    lemma_first_store_with_id(old_stores, store_id, i as int);
                }
                let mut st = h.meta.stores.remove(i);
                let ghost old_st = st;
                st.indexes.push(meta);
                proof {
                    assert(st@.indexes =~= old_st@.indexes.push(copy@));
                }
                h.meta.stores.insert(i, st);
            },
            None => {
                proof {
                    lemma_first_store_with_id(old_stores, store_id, old_stores.len() as int);
                }
            },
        }
        self.txns.insert(txn_id, h);
        Ok(copy)
    }

    /// Resolves `(store id, index id)` of the live index `name` of the
    /// live store `store_name` in the upgrade transaction.
    pub fn schema_find_index(&self, txn_id: u64, store_name: &str, name: &str) -> (r: Result<(u64, u64), IdbError>)
        ensures
            ({
                let stores = self.txns@[txn_id].meta.stores@;
                let i = first_live_store_named(stores, store_name@);
                match r {
                    Ok((sid, iid)) => {
                        let k = first_live_index_named(stores[i].indexes@, name@);
                        &&& self.upgrade_ok(txn_id)
                        &&& i < stores.len()
                        &&& stores[i].id == sid
                        &&& k < stores[i].indexes@.len()
                        &&& stores[i].indexes@[k].id == iid
                    },
                    Err(e) => if !self.upgrade_ok(txn_id) {
                        upgrade_refusal(e, self.txns@.contains_key(txn_id))
                    } else if !has_live_store(stores, store_name@) {
                        e is NotFound && message_of(e) == "Object store '"@ + store_name@ + "' not found"@
                    } else {
                        &&& e is NotFound
                        &&& !has_live_index(stores[i].indexes@, name@)
                        &&& message_of(e) == "Index '"@ + name@ + "' not found"@
                    },
                }
            }),
    {
        let i = match self.schema_find_store_at(txn_id, store_name) {
            Ok(i) => i,
            Err(e) => {
                return Err(e);
            },
        };
        let h = self.txns.get(&txn_id).unwrap();
        let st = &h.meta.stores[i];
        match find_live_index(&st.indexes, name) {
            Some(k) => {
                proof {
                    lemma_first_live_index_named(st.indexes@, name@, k as int);
                }
                Ok((st.id, st.indexes[k].id))
            },
            None => Err(IdbError::NotFound(concat3("Index '", name, "' not found"))),
        }
    }

    /// Position of the first live store named `name` in the upgrade
    /// snapshot.
    fn schema_find_store_at(&self, txn_id: u64, name: &str) -> (r: Result<usize, IdbError>)
        ensures
            match r {
                Ok(i) => {
                    &&& self.upgrade_ok(txn_id)
                    &&& i == first_live_store_named(self.txns@[txn_id].meta.stores@, name@)
                    &&& i < self.txns@[txn_id].meta.stores@.len()
                    &&& live_store_named(self.txns@[txn_id].meta.stores@, i as int, name@)
                },
                Err(e) => if !self.upgrade_ok(txn_id) {
                    upgrade_refusal(e, self.txns@.contains_key(txn_id))
                } else {
                    e is NotFound && !has_live_store(self.txns@[txn_id].meta.stores@, name@)
                        && message_of(e) == "Object store '"@ + name@ + "' not found"@
                },
            },
    {
        self.upgrade_check(txn_id)?;
        let h = self.txns.get(&txn_id).unwrap();
        match crate::schema::find_live_store(&h.meta.stores, name) {
            Some(i) => {
                proof {
                    crate::upgrade::lemma_first_live_store_named(h.meta.stores@, name@, i as int);
                }
                Ok(i)
            },
            None => Err(IdbError::NotFound(concat3("Object store '", name, "' not found"))),
        }
    }

    /// Checks `index.name = new_name` on store `store_name`: the store must
    /// be live, the new name free and the old one live. Returns
    /// `(store id, index id)`.
    pub fn schema_check_rename_index(&self, txn_id: u64, store_name: &str, current_name: &str, new_name: &str) -> (r: Result<(u64, u64), IdbError>)
        ensures
            ({
                let stores = self.txns@[txn_id].meta.stores@;
                let i = first_live_store_named(stores, store_name@);
                match r {
                    Ok((sid, iid)) => {
                        let k = first_live_index_named(stores[i].indexes@, current_name@);
                        &&& self.upgrade_ok(txn_id)
                        &&& i < stores.len()
                        &&& stores[i].id == sid
                        &&& !has_live_index(stores[i].indexes@, new_name@)
                        &&& k < stores[i].indexes@.len()
                        &&& stores[i].indexes@[k].id == iid
                    },
                    Err(e) => if !self.upgrade_ok(txn_id) {
                        upgrade_refusal(e, self.txns@.contains_key(txn_id))
                    } else if !has_live_store(stores, store_name@) {
                        e is NotFound && message_of(e) == "Object store '"@ + store_name@ + "' not found"@
                    } else if has_live_index(stores[i].indexes@, new_name@) {
                        e is Constraint && message_of(e) == "Index '"@ + new_name@ + "' already exists"@
                    } else {
                        e is NotFound && !has_live_index(stores[i].indexes@, current_name@)
                            && message_of(e) == "Index '"@ + current_name@ + "' not found"@
                    },
                }
            }),
    {
        let i = match self.schema_find_store_at(txn_id, store_name) {
            Ok(i) => i,
            Err(e) => {
                return Err(e);
            },
        };
        let h = self.txns.get(&txn_id).unwrap();
        let st = &h.meta.stores[i];
        if find_live_index(&st.indexes, new_name).is_some() {
            return Err(IdbError::Constraint(concat3("Index '", new_name, "' already exists")));
        }
        match find_live_index(&st.indexes, current_name) {
            Some(k) => {
                proof {
                    lemma_first_live_index_named(st.indexes@, current_name@, k as int);
                }
                Ok((st.id, st.indexes[k].id))
            },
            None => Err(IdbError::NotFound(concat3("Index '", current_name, "' not found"))),
        }
    }

    /// Applies `edit` to index `index_id` of store `store_id` in the
    /// upgrade snapshot.
    fn schema_edit_index(&mut self, txn_id: u64, store_id: u64, index_id: u64, edit: IndexEdit) -> (r: Result<(), IdbError>)
        ensures
            r is Ok <==> old(self).upgrade_ok(txn_id),
            r matches Err(e) ==> upgrade_refusal(e, old(self).txns@.contains_key(txn_id))
                && final(self).txns@ == old(self).txns@,
            r is Ok ==> {
                let oh = old(self).txns@[txn_id];
                let nh = final(self).txns@[txn_id];
                let i = first_store_with_id(oh.meta.stores@, store_id);
                &&& final(self).only_stores_changed(old(self), txn_id)
                &&& nh.meta.next_index_id == oh.meta.next_index_id
                &&& forall|j: int| 0 <= j < oh.meta.stores@.len() && j != i ==> #[trigger] nh.meta.stores@[j] == oh.meta.stores@[j]
                &&& i < oh.meta.stores@.len() ==> nh.meta.stores@[i]@ == store_with_edit(oh.meta.stores@[i], index_id, edit)
            },
    {
        self.upgrade_check(txn_id)?;
        let mut h = self.txns.remove(&txn_id).unwrap();
        let ghost old_stores = h.meta.stores@;
        match find_store_by_id(&h.meta.stores, store_id) {
            Some(i) => {
                proof {
                    lemma_first_store_with_id(old_stores, store_id, i as int);
                }
                let mut st = h.meta.stores.remove(i);
                let ghost old_st = st;
                match find_index_by_id(&st.indexes, index_id) {
                    Some(k) => {
                        proof {
                            lemma_first_index_with_id(old_st.indexes@, index_id, k as int);
                        }
                        let mut ix = st.indexes.remove(k);
                        let ghost old_ix = ix;
                        match edit {
                            IndexEdit::MarkDeleted => {
                                ix.deleted = true;
                            },
                            IndexEdit::Rename(n) => {
                                ix.name = n;
                            },
                        }
                        assert(ix@ == edited(old_ix@, edit));
                        st.indexes.insert(k, ix);
                        proof {
                            assert(st@.indexes =~= old_st@.indexes.update(k as int, edited(old_ix@, edit)));
                        }
                    },
                    None => {
                        proof {
                            lemma_first_index_with_id(old_st.indexes@, index_id, old_st.indexes@.len() as int);
                        }
                    },
                }
                h.meta.stores.insert(i, st);
            },
            None => {
                proof {
                    lemma_first_store_with_id(old_stores, store_id, old_stores.len() as int);
                }
            },
        }
        self.txns.insert(txn_id, h);
        Ok(())
    }

    /// Marks index `index_id` of store `store_id` deleted in the upgrade
    /// snapshot.
    pub fn schema_mark_index_deleted(&mut self, txn_id: u64, store_id: u64, index_id: u64) -> (r: Result<(), IdbError>)
        ensures
            r is Ok <==> old(self).upgrade_ok(txn_id),
            r matches Err(e) ==> upgrade_refusal(e, old(self).txns@.contains_key(txn_id))
                && final(self).txns@ == old(self).txns@,
            r is Ok ==> {
                let oh = old(self).txns@[txn_id];
                let nh = final(self).txns@[txn_id];
                let i = first_store_with_id(oh.meta.stores@, store_id);
                &&& final(self).only_stores_changed(old(self), txn_id)
                &&& nh.meta.next_index_id == oh.meta.next_index_id
                &&& forall|j: int| 0 <= j < oh.meta.stores@.len() && j != i ==> #[trigger] nh.meta.stores@[j] == oh.meta.stores@[j]
                &&& i < oh.meta.stores@.len() ==> nh.meta.stores@[i]@ == store_with_edit(oh.meta.stores@[i], index_id, IndexEdit::MarkDeleted)
            },
    {
        self.schema_edit_index(txn_id, store_id, index_id, IndexEdit::MarkDeleted)
    }

    /// Renames index `index_id` of store `store_id` in the upgrade
    /// snapshot.
    pub fn schema_apply_rename_index(&mut self, txn_id: u64, store_id: u64, index_id: u64, new_name: String) -> (r: Result<(), IdbError>)
        ensures
            r is Ok <==> old(self).upgrade_ok(txn_id),
            r matches Err(e) ==> upgrade_refusal(e, old(self).txns@.contains_key(txn_id))
                && final(self).txns@ == old(self).txns@,
            r is Ok ==> {
                let oh = old(self).txns@[txn_id];
                let nh = final(self).txns@[txn_id];
                let i = first_store_with_id(oh.meta.stores@, store_id);
                &&& final(self).only_stores_changed(old(self), txn_id)
                &&& nh.meta.next_index_id == oh.meta.next_index_id
                &&& forall|j: int| 0 <= j < oh.meta.stores@.len() && j != i ==> #[trigger] nh.meta.stores@[j] == oh.meta.stores@[j]
                &&& i < oh.meta.stores@.len() ==> nh.meta.stores@[i]@ == store_with_edit(oh.meta.stores@[i], index_id, IndexEdit::Rename(new_name))
            },
    {
        self.schema_edit_index(txn_id, store_id, index_id, IndexEdit::Rename(new_name))
    }

    /// Names of the live indexes of the first live store with id
    /// `store_id` (none when the transaction or the store is unknown).
    pub fn store_index_names(&self, txn_id: u64, store_id: u64) -> (r: Vec<String>)
        ensures
            ({
                let stores = self.txns@[txn_id].meta.stores@;
                let i = first_live_with_id(stores, store_id);
                string_views(r@) == if self.txns@.contains_key(txn_id) && i < stores.len() {
                    live_index_names(stores[i].indexes@)
                } else {
                    Seq::empty()
                }
            }),
    {
        match self.txns.get(&txn_id) {
            Some(h) => match find_live_store_by_id(&h.meta.stores, store_id) {
                Some(i) => {
                    proof {
                        lemma_first_live_with_id(h.meta.stores@, store_id, i as int);
                    }
                    index_names(&h.meta.stores[i].indexes)
                },
                None => {
                    proof {
                        lemma_first_live_with_id(h.meta.stores@, store_id, h.meta.stores@.len() as int);
                    }
                    let r: Vec<String> = Vec::new();
                    assert(string_views(r@) =~= Seq::empty());
                    r
                },
            },
            None => {
                let r: Vec<String> = Vec::new();
                assert(string_views(r@) =~= Seq::empty());
                r
            },
        }
    }

    /// Live store names as the upgrade transaction `txn_id` sees them, or
    /// `None` when it is unknown or finished (the caller then lists the
    /// committed schema).
    pub fn upgrade_store_names(&self, txn_id: u64) -> (r: Option<Vec<String>>)
        ensures
            match r {
                Some(names) => {
                    &&& self.txns@.contains_key(txn_id)
                    &&& !self.txns@[txn_id].finished
                    &&& string_views(names@) == live_store_names(self.txns@[txn_id].meta.stores@)
                },
                None => !self.txns@.contains_key(txn_id) || self.txns@[txn_id].finished,
            },
    {
        match self.txns.get(&txn_id) {
            Some(h) => {
                if h.finished {
                    None
                } else {
                    Some(store_names(&h.meta.stores))
                }
            },
            None => None,
        }
    }
}

/// No two live indexes share a name.
pub open spec fn index_names_unique(v: Seq<IndexView>) -> bool {
    forall|i: int, j: int| 0 <= i < j < v.len() && !v[i].deleted && !v[j].deleted ==> v[i].name != v[j].name
}

/// Adding an index under a name no live index of the store has (what
/// `schema_check_create_index` makes sure of before `schema_add_index`
/// appends it) keeps live index names unique.
pub proof fn lemma_add_index_keeps_names_unique(indexes: Seq<IndexMeta>, added: IndexView)
    requires
        index_names_unique(indexes.map_values(|i: IndexMeta| i@)),
        !has_live_index(indexes, added.name),
    ensures
        index_names_unique(indexes.map_values(|i: IndexMeta| i@).push(added)),
{
    let v = indexes.map_values(|i: IndexMeta| i@);
    let p = v.push(added);
    assert forall|i: int, j: int| 0 <= i < j < p.len() && !p[i].deleted && !p[j].deleted implies p[i].name != p[j].name by {
        if j == v.len() {
            assert(!crate::schema::live_index_named(indexes, i, added.name));
        }
    }
}

/// Marking an index deleted, or renaming it to a name that no live index
/// of the store has (checked by `schema_check_rename_index`), keeps live
/// index names unique.
pub proof fn lemma_index_edit_keeps_names_unique(v: Seq<IndexView>, k: int, e: IndexEdit)
    requires
        index_names_unique(v),
        0 <= k < v.len(),
        e matches IndexEdit::Rename(n) ==> forall|i: int| 0 <= i < v.len() && !v[i].deleted ==> v[i].name != n@,
    ensures
        index_names_unique(v.update(k, edited(v[k], e))),
{
    let w = v.update(k, edited(v[k], e));
    assert forall|i: int, j: int| 0 <= i < j < w.len() && !w[i].deleted && !w[j].deleted implies w[i].name != w[j].name by {
        if i == k || j == k {
            if let IndexEdit::Rename(n) = e {
                assert(!v[i].deleted && !v[j].deleted);
            }
        }
    }
}

} // verus!
