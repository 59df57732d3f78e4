//! Schema snapshots: object stores and indexes of a database, with the
//! lookups and name listings the API layer needs.

use vstd::prelude::*;

use crate::text::str_eq;

verus! {

/// A key path.
#[derive(Debug, Clone)]
pub enum KeyPath {
    /// No key path (out-of-line keys), also an explicit empty string.
    Empty,
    /// A single (possibly dotted) path.
    Single(String),
    /// A sequence of paths.
    Array(Vec<String>),
}

/// Index metadata.
#[derive(Debug, Clone)]
pub struct IndexMeta {
    pub id: u64,
    pub store_id: u64,
    pub name: String,
    pub key_path: KeyPath,
    pub unique: bool,
    pub multi_entry: bool,
    pub deleted: bool,
}

/// Object store metadata.
#[derive(Debug, Clone)]
pub struct StoreMeta {
    pub id: u64,
    pub name: String,
    pub key_path: KeyPath,
    pub auto_increment: bool,
    pub indexes: Vec<IndexMeta>,
    pub deleted: bool,
}

/// Database metadata.
#[derive(Debug, Clone)]
pub struct DatabaseMeta {
    pub name: String,
    pub version: u64,
    pub stores: Vec<StoreMeta>,
    pub next_store_id: u64,
    pub next_index_id: u64,
}

/// Abstract key path.
pub enum KeyPathView {
    Empty,
    Single(Seq<char>),
    Array(Seq<Seq<char>>),
}

impl View for KeyPath {
    type V = KeyPathView;

    open spec fn view(&self) -> KeyPathView {
        match self {
            KeyPath::Empty => KeyPathView::Empty,
            KeyPath::Single(s) => KeyPathView::Single(s@),
            KeyPath::Array(v) => KeyPathView::Array(v@.map_values(|s: String| s@)),
        }
    }
}

/// Abstract index metadata.
pub struct IndexView {
    pub id: u64,
    pub store_id: u64,
    pub name: Seq<char>,
    pub key_path: KeyPathView,
    pub unique: bool,
    pub multi_entry: bool,
    pub deleted: bool,
}

impl View for IndexMeta {
    type V = IndexView;

    open spec fn view(&self) -> IndexView {
        IndexView {
            id: self.id,
            store_id: self.store_id,
            name: self.name@,
            key_path: self.key_path@,
            unique: self.unique,
            multi_entry: self.multi_entry,
            deleted: self.deleted,
        }
    }
}

/// Abstract object store metadata.
pub struct StoreView {
    pub id: u64,
    pub name: Seq<char>,
    pub key_path: KeyPathView,
    pub auto_increment: bool,
    pub indexes: Seq<IndexView>,
    pub deleted: bool,
}

impl View for StoreMeta {
    type V = StoreView;

    open spec fn view(&self) -> StoreView {
        StoreView {
            id: self.id,
            name: self.name@,
            key_path: self.key_path@,
            auto_increment: self.auto_increment,
            indexes: self.indexes@.map_values(|i: IndexMeta| i@),
            deleted: self.deleted,
        }
    }
}

impl KeyPath {
    /// A copy with the same contents.
    pub fn duplicate(&self) -> (r: KeyPath)
        ensures
            r@ == self@,
    {
        match self {
            KeyPath::Empty => KeyPath::Empty,
            KeyPath::Single(s) => KeyPath::Single(s.clone()),
            KeyPath::Array(v) => {
                let mut out: Vec<String> = Vec::new();
                let mut i: usize = 0;
                while i < v.len()
                    invariant
                        i <= v@.len(),
                        out@.len() == i,
                        forall|j: int| 0 <= j < i ==> out@[j]@ == v@[j]@,
                    decreases v@.len() - i,
                {
                    out.push(v[i].clone());
                    i = i + 1;
                }
                assert(out@.map_values(|s: String| s@) =~= v@.map_values(|s: String| s@));
                KeyPath::Array(out)
            },
        }
    }

}

impl IndexMeta {
    /// A copy with the same contents.
    pub fn duplicate(&self) -> (r: IndexMeta)
        ensures
            r@ == self@,
    {
        IndexMeta {
            id: self.id,
            store_id: self.store_id,
            name: self.name.clone(),
            key_path: self.key_path.duplicate(),
            unique: self.unique,
            multi_entry: self.multi_entry,
            deleted: self.deleted,
        }
    }
}

impl StoreMeta {
    /// A copy with the same contents.
    pub fn duplicate(&self) -> (r: StoreMeta)
        ensures
            r@ == self@,
    {
        let mut indexes: Vec<IndexMeta> = Vec::new();
        let mut i: usize = 0;
        while i < self.indexes.len()
            invariant
                i <= self.indexes@.len(),
                indexes@.len() == i,
                forall|j: int| 0 <= j < i ==> indexes@[j]@ == self.indexes@[j]@,
            decreases self.indexes@.len() - i,
        {
            indexes.push(self.indexes[i].duplicate());
            i = i + 1;
        }
        assert(indexes@.map_values(|x: IndexMeta| x@) =~= self.indexes@.map_values(|x: IndexMeta| x@));
        StoreMeta {
            id: self.id,
            name: self.name.clone(),
            key_path: self.key_path.duplicate(),
            auto_increment: self.auto_increment,
            indexes,
            deleted: self.deleted,
        }
    }
}

/// Store `i` is live and named `name`.
pub open spec fn live_store_named(stores: Seq<StoreMeta>, i: int, name: Seq<char>) -> bool {
    0 <= i < stores.len() && !stores[i].deleted && stores[i].name@ == name
}

/// Some live store is named `name`.
pub open spec fn has_live_store(stores: Seq<StoreMeta>, name: Seq<char>) -> bool {
    exists|i: int| live_store_named(stores, i, name)
}

/// Index `i` is live and named `name`.
pub open spec fn live_index_named(indexes: Seq<IndexMeta>, i: int, name: Seq<char>) -> bool {
    0 <= i < indexes.len() && !indexes[i].deleted && indexes[i].name@ == name
}

/// Some live index is named `name`.
pub open spec fn has_live_index(indexes: Seq<IndexMeta>, name: Seq<char>) -> bool {
    exists|i: int| live_index_named(indexes, i, name)
}

/// Names of the live stores, in schema order.
pub open spec fn live_store_names(stores: Seq<StoreMeta>) -> Seq<Seq<char>>
    decreases stores.len(),
{
    if stores.len() == 0 {
        Seq::empty()
    } else {
        let rest = live_store_names(stores.drop_last());
        if stores.last().deleted {
            rest
        } else {
            rest.push(stores.last().name@)
        }
    }
}

/// Names of the live indexes, in schema order.
pub open spec fn live_index_names(indexes: Seq<IndexMeta>) -> Seq<Seq<char>>
    decreases indexes.len(),
{
    if indexes.len() == 0 {
        Seq::empty()
    } else {
        let rest = live_index_names(indexes.drop_last());
        if indexes.last().deleted {
            rest
        } else {
            rest.push(indexes.last().name@)
        }
    }
}

pub open spec fn string_views(v: Seq<String>) -> Seq<Seq<char>> {
    v.map_values(|s: String| s@)
}

/// A store that has not been deleted.
pub open spec fn store_is_live() -> spec_fn(StoreMeta) -> bool {
    |s: StoreMeta| !s.deleted
}

/// An index that has not been deleted.
pub open spec fn index_is_live() -> spec_fn(IndexMeta) -> bool {
    |i: IndexMeta| !i.deleted
}

/// The names of the stores, in order.
pub open spec fn names_of_stores(stores: Seq<StoreMeta>) -> Seq<Seq<char>> {
    stores.map_values(|s: StoreMeta| s.name@)
}

/// The names of the indexes, in order.
pub open spec fn names_of_indexes(indexes: Seq<IndexMeta>) -> Seq<Seq<char>> {
    indexes.map_values(|i: IndexMeta| i.name@)
}

/// The store names listed are those of the stores not deleted, each once,
/// in schema order: deleted stores are left out and nothing is reordered.
pub proof fn lemma_live_store_names_are_live_stores(stores: Seq<StoreMeta>)
    ensures
        live_store_names(stores) == names_of_stores(stores.filter(store_is_live())),
    decreases stores.len(),
{
    reveal(Seq::filter);
    if stores.len() == 0 {
        assert(names_of_stores(stores.filter(store_is_live())) =~= Seq::empty());
    } else {
        lemma_live_store_names_are_live_stores(stores.drop_last());
        let prev = stores.drop_last().filter(store_is_live());
        if !stores.last().deleted {
            assert(names_of_stores(prev.push(stores.last())) =~= names_of_stores(prev).push(stores.last().name@));
        }
    }
}

/// The index names listed are those of the indexes not deleted, each once,
/// in schema order.
pub proof fn lemma_live_index_names_are_live_indexes(indexes: Seq<IndexMeta>)
    ensures
        live_index_names(indexes) == names_of_indexes(indexes.filter(index_is_live())),
    decreases indexes.len(),
{
    reveal(Seq::filter);
    if indexes.len() == 0 {
        assert(names_of_indexes(indexes.filter(index_is_live())) =~= Seq::empty());
    } else {
        lemma_live_index_names_are_live_indexes(indexes.drop_last());
        let prev = indexes.drop_last().filter(index_is_live());
        if !indexes.last().deleted {
            assert(names_of_indexes(prev.push(indexes.last())) =~= names_of_indexes(prev).push(indexes.last().name@));
        }
    }
}

/// Lists the names of the live stores.
pub fn store_names(stores: &Vec<StoreMeta>) -> (r: Vec<String>)
    ensures
        string_views(r@) == live_store_names(stores@),
        string_views(r@) == names_of_stores(stores@.filter(store_is_live())),
{
    proof {
        lemma_live_store_names_are_live_stores(stores@);
    }
    let mut out: Vec<String> = Vec::new();
    let mut i: usize = 0;
    while i < stores.len()
        invariant
            i <= stores.len(),
            string_views(out@) == live_store_names(stores@.subrange(0, i as int)),
        decreases stores.len() - i,
    {
        proof {
            assert(stores@.subrange(0, i + 1).drop_last() =~= stores@.subrange(0, i as int));
        }
        if !stores[i].deleted {
            out.push(stores[i].name.clone());
        }
        proof {
            assert(string_views(out@) =~= live_store_names(stores@.subrange(0, i + 1)));
        }
        i = i + 1;
    }
    proof {
        assert(stores@.subrange(0, stores@.len() as int) =~= stores@);
    }
    out
}

/// Lists the names of the live indexes.
pub fn index_names(indexes: &Vec<IndexMeta>) -> (r: Vec<String>)
    ensures
        string_views(r@) == live_index_names(indexes@),
        string_views(r@) == names_of_indexes(indexes@.filter(index_is_live())),
{
    proof {
        lemma_live_index_names_are_live_indexes(indexes@);
    }
    let mut out: Vec<String> = Vec::new();
    let mut i: usize = 0;
    while i < indexes.len()
        invariant
            i <= indexes.len(),
            string_views(out@) == live_index_names(indexes@.subrange(0, i as int)),
        decreases indexes.len() - i,
    {
        proof {
            assert(indexes@.subrange(0, i + 1).drop_last() =~= indexes@.subrange(0, i as int));
        }
        if !indexes[i].deleted {
            out.push(indexes[i].name.clone());
        }
        proof {
            assert(string_views(out@) =~= live_index_names(indexes@.subrange(0, i + 1)));
        }
        i = i + 1;
    }
    proof {
        assert(indexes@.subrange(0, indexes@.len() as int) =~= indexes@);
    }
    out
}

/// Position of the first live store named `name`.
pub fn find_live_store(stores: &Vec<StoreMeta>, name: &str) -> (r: Option<usize>)
    ensures
        r matches Some(i) ==> live_store_named(stores@, i as int, name@) && forall|j: int|
            0 <= j < i ==> !live_store_named(stores@, j, name@),
        r is None ==> !has_live_store(stores@, name@),
{
    let mut i: usize = 0;
    while i < stores.len()
        invariant
            i <= stores.len(),
            forall|j: int| 0 <= j < i ==> !live_store_named(stores@, j, name@),
        decreases stores.len() - i,
    {
        if !stores[i].deleted && str_eq(stores[i].name.as_str(), name) {
            return Some(i);
        }
        i = i + 1;
    }
    None
}

/// Position of the first live index named `name`.
pub fn find_live_index(indexes: &Vec<IndexMeta>, name: &str) -> (r: Option<usize>)
    ensures
        r matches Some(i) ==> live_index_named(indexes@, i as int, name@) && forall|j: int|
            0 <= j < i ==> !live_index_named(indexes@, j, name@),
        r is None ==> !has_live_index(indexes@, name@),
{
    let mut i: usize = 0;
    while i < indexes.len()
        invariant
            i <= indexes.len(),
            forall|j: int| 0 <= j < i ==> !live_index_named(indexes@, j, name@),
        decreases indexes.len() - i,
    {
        if !indexes[i].deleted && str_eq(indexes[i].name.as_str(), name) {
            return Some(i);
        }
        i = i + 1;
    }
    None
}

/// Position of the store with id `id` (live or not).
pub fn find_store_by_id(stores: &Vec<StoreMeta>, id: u64) -> (r: Option<usize>)
    ensures
        r matches Some(i) ==> i < stores@.len() && stores@[i as int].id == id && forall|j: int|
            0 <= j < i ==> stores@[j].id != id,
        r is None ==> forall|j: int| 0 <= j < stores@.len() ==> stores@[j].id != id,
{
    let mut i: usize = 0;
    while i < stores.len()
        invariant
            i <= stores.len(),
            forall|j: int| 0 <= j < i ==> stores@[j].id != id,
        decreases stores.len() - i,
    {
        if stores[i].id == id {
            return Some(i);
        }
        i = i + 1;
    }
    None
}

/// Position of the index with id `id` (live or not).
pub fn find_index_by_id(indexes: &Vec<IndexMeta>, id: u64) -> (r: Option<usize>)
    ensures
        r matches Some(i) ==> i < indexes@.len() && indexes@[i as int].id == id && forall|j: int|
            0 <= j < i ==> indexes@[j].id != id,
        r is None ==> forall|j: int| 0 <= j < indexes@.len() ==> indexes@[j].id != id,
{
    let mut i: usize = 0;
    while i < indexes.len()
        invariant
            i <= indexes.len(),
            forall|j: int| 0 <= j < i ==> indexes@[j].id != id,
        decreases indexes.len() - i,
    {
        if indexes[i].id == id {
            return Some(i);
        }
        i = i + 1;
    }
    None
}

/// Position of the first live store with id `id`.
pub fn find_live_store_by_id(stores: &Vec<StoreMeta>, id: u64) -> (r: Option<usize>)
    ensures
        r matches Some(i) ==> i < stores@.len() && stores@[i as int].id == id && !stores@[i as int].deleted
            && forall|j: int| 0 <= j < i ==> !(stores@[j].id == id && !stores@[j].deleted),
        r is None ==> forall|j: int| 0 <= j < stores@.len() ==> !(stores@[j].id == id && !stores@[j].deleted),
{
    let mut i: usize = 0;
    while i < stores.len()
        invariant
            i <= stores.len(),
            forall|j: int| 0 <= j < i ==> !(stores@[j].id == id && !stores@[j].deleted),
        decreases stores.len() - i,
    {
        if stores[i].id == id && !stores[i].deleted {
            return Some(i);
        }
        i = i + 1;
    }
    None
}

} // verus!
