//! Checks behind the `IDBDatabase` methods: argument rules of
//! `transaction()`, the scope resolution against committed metadata, and
//! the connection state the schema methods need.

use vstd::prelude::*;

use crate::api::support::ApiError;
use crate::driver::DriverState;
use crate::error::{message_of, IdbError};
use crate::proto::{Durability, TxnMode};
use crate::schema::{find_live_store, has_live_store, live_store_named, StoreMeta};
use crate::text::{concat3, str_eq};
use crate::upgrade::{first_live_store_named, lemma_first_live_store_named};

verus! {

broadcast use vstd::std_specs::hash::group_hash_axioms;

/// The mode a `transaction()` call asks for: read-only when omitted.
pub open spec fn spec_txn_mode(mode: Option<Seq<char>>) -> Option<TxnMode> {
    match mode {
        None => Some(TxnMode::ReadOnly),
        Some(m) => if m == "readonly"@ {
            Some(TxnMode::ReadOnly)
        } else if m == "readwrite"@ {
            Some(TxnMode::ReadWrite)
        } else {
            None
        },
    }
}

/// The durability a `transaction()` call asks for: the default when
/// omitted.
pub open spec fn spec_durability(d: Option<Seq<char>>) -> Option<Durability> {
    match d {
        None => Some(Durability::Default),
        Some(s) => if s == "default"@ {
            Some(Durability::Default)
        } else if s == "strict"@ {
            Some(Durability::Strict)
        } else if s == "relaxed"@ {
            Some(Durability::Relaxed)
        } else {
            None
        },
    }
}

/// The mode and durability names: an omitted or `"readonly"` mode is
/// read-only, `"readwrite"` read-write, any other name none; an omitted or
/// `"default"` durability is the default one, `"strict"` strict and
/// `"relaxed"` relaxed, any other name none.
pub proof fn lemma_mode_and_durability_names(name: Seq<char>)
    ensures
        spec_txn_mode(None) == Some(TxnMode::ReadOnly),
        spec_txn_mode(Some("readonly"@)) == Some(TxnMode::ReadOnly),
        spec_txn_mode(Some("readwrite"@)) == Some(TxnMode::ReadWrite),
        name != "readonly"@ && name != "readwrite"@ ==> spec_txn_mode(Some(name)) is None,
        spec_durability(None) == Some(Durability::Default),
        spec_durability(Some("default"@)) == Some(Durability::Default),
        spec_durability(Some("strict"@)) == Some(Durability::Strict),
        spec_durability(Some("relaxed"@)) == Some(Durability::Relaxed),
        name != "default"@ && name != "strict"@ && name != "relaxed"@ ==> spec_durability(Some(name)) is None,
{
    reveal_strlit("readonly");
    reveal_strlit("readwrite");
    reveal_strlit("default");
    reveal_strlit("strict");
    reveal_strlit("relaxed");
    assert("readwrite"@[5] != "readonly"@[5]);
    assert("strict"@.len() != "default"@.len());
    assert("relaxed"@[0] != "default"@[0]);
    assert("relaxed"@.len() != "strict"@.len());
}

/// The text of an optional string argument.
pub open spec fn opt_str(o: Option<&str>) -> Option<Seq<char>> {
    match o {
        Some(s) => Some(s@),
        None => None,
    }
}

/// Checks the arguments of `transaction(storeNames, mode, {durability})`,
/// in the order the method takes them: a closed connection
/// (`InvalidState`), an empty scope (`InvalidAccess`), then a mode or a
/// durability that is not one of the names (`TypeError`).
pub fn transaction_args(closed: bool, store_names: &Vec<String>, mode: Option<&str>, durability: Option<&str>) -> (r: Result<(TxnMode, Durability), ApiError>)
    ensures
        closed ==> (r matches Err(ApiError::Idb(e)) && e is InvalidState
            && message_of(e) == "The database connection is closed."@),
        !closed && store_names@.len() == 0 ==> (r matches Err(ApiError::Idb(e)) && e is InvalidAccess
            && message_of(e) == "Transaction scope must not be empty."@),
        !closed && store_names@.len() > 0 ==> match (spec_txn_mode(opt_str(mode)), spec_durability(opt_str(durability))) {
            (Some(m), Some(d)) => r == Ok::<(TxnMode, Durability), ApiError>((m, d)),
            (None, _) => r matches Err(ApiError::Type(msg))
                && msg@ == "Invalid transaction mode '"@ + opt_str(mode)->0 + "'"@,
            (Some(_), None) => r matches Err(ApiError::Type(msg))
                && msg@ == "Invalid durability '"@ + opt_str(durability)->0 + "'"@,
        },
        !closed && store_names@.len() > 0 && spec_durability(opt_str(durability)) is Some ==> {
            &&& opt_str(mode) is None ==> (r matches Ok((m, _)) && m == TxnMode::ReadOnly)
            &&& opt_str(mode) == Some("readonly"@) ==> (r matches Ok((m, _)) && m == TxnMode::ReadOnly)
            &&& opt_str(mode) == Some("readwrite"@) ==> (r matches Ok((m, _)) && m == TxnMode::ReadWrite)
        },
        !closed && store_names@.len() > 0 && spec_txn_mode(opt_str(mode)) is Some ==> {
            &&& opt_str(durability) is None ==> (r matches Ok((_, d)) && d == Durability::Default)
            &&& opt_str(durability) == Some("default"@) ==> (r matches Ok((_, d)) && d == Durability::Default)
            &&& opt_str(durability) == Some("strict"@) ==> (r matches Ok((_, d)) && d == Durability::Strict)
            &&& opt_str(durability) == Some("relaxed"@) ==> (r matches Ok((_, d)) && d == Durability::Relaxed)
        },
{
    proof {
        lemma_mode_and_durability_names(Seq::empty());
    }
    if closed {
        return Err(ApiError::Idb(IdbError::InvalidState("The database connection is closed.".to_string())));
    }
    if store_names.len() == 0 {
        return Err(ApiError::Idb(IdbError::InvalidAccess("Transaction scope must not be empty.".to_string())));
    }
    let m = match mode {
        None => TxnMode::ReadOnly,
        Some(s) => {
            if str_eq(s, "readonly") {
                TxnMode::ReadOnly
            } else if str_eq(s, "readwrite") {
                TxnMode::ReadWrite
            } else {
                return Err(ApiError::Type(concat3("Invalid transaction mode '", s, "'")));
            }
        },
    };
    let d = match durability {
        None => Durability::Default,
        Some(s) => {
            if str_eq(s, "default") {
                Durability::Default
            } else if str_eq(s, "strict") {
                Durability::Strict
            } else if str_eq(s, "relaxed") {
                Durability::Relaxed
            } else {
                return Err(ApiError::Type(concat3("Invalid durability '", s, "'")));
            }
        },
    };
    Ok((m, d))
}

/// The ids of the live stores named in `names`, in order; `NotFound` for
/// the first name without a live store.
pub open spec fn scope_ok(stores: Seq<StoreMeta>, names: Seq<String>, ids: Seq<u64>) -> bool {
    &&& ids.len() == names.len()
    &&& forall|k: int| 0 <= k < names.len() ==> {
        let i = #[trigger] first_live_store_named(stores, names[k]@);
        i < stores.len() && ids[k] == stores[i].id
    }
}

/// Resolves the store names of a new transaction to ids against the
/// committed schema.
pub fn resolve_scope(stores: &Vec<StoreMeta>, names: &Vec<String>) -> (r: Result<Vec<u64>, IdbError>)
    ensures
        match r {
            Ok(ids) => scope_ok(stores@, names@, ids@),
            Err(e) => e is NotFound && exists|k: int| {
                &&& 0 <= k < names@.len()
                &&& !has_live_store(stores@, #[trigger] names@[k]@)
                &&& forall|j: int| 0 <= j < k ==> has_live_store(stores@, #[trigger] names@[j]@)
                &&& message_of(e) == "Object store '"@ + names@[k]@ + "' not found"@
            },
        },
{
    let mut ids: Vec<u64> = Vec::new();
    let mut k: usize = 0;
    while k < names.len()
        invariant
            k <= names@.len(),
            ids@.len() == k,
            forall|j: int| 0 <= j < k ==> {
                let i = #[trigger] first_live_store_named(stores@, names@[j]@);
                i < stores@.len() && ids@[j] == stores@[i].id
            },
            forall|j: int| 0 <= j < k ==> has_live_store(stores@, #[trigger] names@[j]@),
        decreases names@.len() - k,
    {
        match find_live_store(stores, names[k].as_str()) {
            Some(i) => {
                proof {
                    lemma_first_live_store_named(stores@, names@[k as int]@, i as int);
                    assert(live_store_named(stores@, i as int, names@[k as int]@));
                }
                ids.push(stores[i].id);
            },
            None => {
                return Err(IdbError::NotFound(concat3("Object store '", names[k].as_str(), "' not found")));
            },
        }
        k = k + 1;
    }
    Ok(ids)
}

/// The versionchange transaction a schema method (`createObjectStore`,
/// `deleteObjectStore`) runs in: `InvalidState` when the connection has
/// none.
pub fn schema_txn_of(upgrade_txn: Option<u64>, method: &str) -> (r: Result<u64, IdbError>)
    ensures
        match upgrade_txn {
            Some(t) => r == Ok::<u64, IdbError>(t),
            None => r matches Err(e) && e is InvalidState
                && message_of(e) == method@ + " requires a versionchange transaction."@,
        },
{
    match upgrade_txn {
        Some(t) => Ok(t),
        None => {
            let m = concat3(method, " requires a versionchange transaction.", "");
            proof {
                reveal_strlit("");
                assert(m@ =~= method@ + " requires a versionchange transaction."@);
            }
            Err(IdbError::InvalidState(m))
        },
    }
}

/// A closed connection refuses every method with `InvalidState`.
pub fn connection_open_check(closed: bool) -> (r: Result<(), IdbError>)
    ensures
        r is Ok <==> !closed,
        r is Err ==> r->Err_0 is InvalidState && message_of(r->Err_0) == "The database connection is closed."@,
{
    if closed {
        Err(IdbError::InvalidState("The database connection is closed.".to_string()))
    } else {
        Ok(())
    }
}

impl DriverState {
    /// A live upgrade transaction on the connection blocks new
    /// transactions.
    pub fn upgrade_running(&self, upgrade_txn: Option<u64>) -> (r: bool)
        ensures
            r == (upgrade_txn matches Some(t) && self.txns@.contains_key(t) && !self.txns@[t].finished),
    {
        match upgrade_txn {
            Some(t) => match self.txns.get(&t) {
                Some(h) => !h.finished,
                None => false,
            },
            None => false,
        }
    }
}

} // verus!
