//! Checks behind the `IDBObjectStore` methods: write access, and the key
//! rules `put()` and `add()` apply before a request is queued.

use vstd::prelude::*;

use crate::error::{message_of, IdbError};
use crate::proto::TxnMode;
use crate::schema::KeyPath;
use crate::text::concat3;

verus! {

/// Writes need a transaction that is not read-only.
pub fn require_readwrite(mode: Option<TxnMode>) -> (r: Result<(), IdbError>)
    ensures
        r is Ok <==> mode != Some(TxnMode::ReadOnly),
        r is Err ==> r->Err_0 is ReadOnly,
{
    match mode {
        Some(TxnMode::ReadOnly) => Err(IdbError::ReadOnly),
        _ => Ok(()),
    }
}

/// What extracting the in-line key of a value gave: for a key path the key
/// at that path, for the empty key path the value itself as a key.
#[derive(Debug)]
pub enum KeyProbe {
    /// A valid key.
    Key,
    /// No key there.
    NoKey,
    /// Something there that is not a valid key (with the reason).
    Invalid(String),
}

/// The store keeps its keys in line (a key path that is not empty).
pub open spec fn inline_keys(key_path: Option<KeyPath>) -> bool {
    key_path matches Some(kp) && !(kp is Empty)
}

/// The store's key path is the empty one.
pub open spec fn empty_key_path(key_path: Option<KeyPath>) -> bool {
    key_path matches Some(kp) && kp is Empty
}

/// `put()`/`add()` may go ahead with these keys.
pub open spec fn put_keys_ok(key_path: Option<KeyPath>, has_explicit_key: bool, probe: KeyProbe, auto_increment: bool) -> bool {
    if has_explicit_key {
        !inline_keys(key_path)
    } else if inline_keys(key_path) {
        probe is Key || (probe is NoKey && auto_increment)
    } else if empty_key_path(key_path) {
        probe is Key || auto_increment
    } else {
        auto_increment
    }
}

/// Why `put()`/`add()` refuses keys that `put_keys_ok` rejects.
pub open spec fn put_key_message(key_path: Option<KeyPath>, has_explicit_key: bool, probe: KeyProbe) -> Seq<char> {
    if has_explicit_key {
        "Cannot provide an explicit key when the store has a keyPath"@
    } else if inline_keys(key_path) {
        match probe {
            KeyProbe::Invalid(reason) => "Invalid inline key: "@ + reason@,
            _ => "Could not extract a key from the value and autoIncrement is disabled"@,
        }
    } else if empty_key_path(key_path) {
        match probe {
            KeyProbe::Invalid(reason) => "Invalid key: "@ + reason@,
            _ => "Value cannot be used as a key"@,
        }
    } else {
        "No key provided and autoIncrement is disabled"@
    }
}

/// The key checks `put(value, key?)` and `add(value, key?)` make at once:
/// no explicit key for in-line keys; without one, the key must come from
/// the value (`probe`) or from the key generator. Fails with `Data`.
pub fn put_key_check(key_path: &Option<KeyPath>, has_explicit_key: bool, probe: &KeyProbe, auto_increment: bool) -> (r: Result<(), IdbError>)
    ensures
        r is Ok <==> put_keys_ok(*key_path, has_explicit_key, *probe, auto_increment),
        r is Err ==> r->Err_0 is Data
            && message_of(r->Err_0) == put_key_message(*key_path, has_explicit_key, *probe),
{
    proof {
        reveal_strlit("");
    }
    let inline = match key_path {
        Some(KeyPath::Empty) => false,
        Some(_) => true,
        None => false,
    };
    let empty = match key_path {
        Some(KeyPath::Empty) => true,
        _ => false,
    };
    if has_explicit_key {
        if inline {
            return Err(IdbError::Data("Cannot provide an explicit key when the store has a keyPath".to_string()));
        }
        return Ok(());
    }
    if inline {
        match probe {
            KeyProbe::Key => Ok(()),
            KeyProbe::NoKey => {
                if auto_increment {
                    Ok(())
                } else {
                    Err(IdbError::Data("Could not extract a key from the value and autoIncrement is disabled".to_string()))
                }
            },
            KeyProbe::Invalid(reason) => Err(IdbError::Data(concat3("Invalid inline key: ", reason.as_str(), ""))),
        }
    } else if empty {
        match probe {
            KeyProbe::Key => Ok(()),
            KeyProbe::NoKey => {
                if auto_increment {
                    Ok(())
                } else {
                    Err(IdbError::Data("Value cannot be used as a key".to_string()))
                }
            },
            KeyProbe::Invalid(reason) => {
                if auto_increment {
                    Ok(())
                } else {
                    Err(IdbError::Data(concat3("Invalid key: ", reason.as_str(), "")))
                }
            },
        }
    } else if auto_increment {
        Ok(())
    } else {
        Err(IdbError::Data("No key provided and autoIncrement is disabled".to_string()))
    }
}

} // verus!
