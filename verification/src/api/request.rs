//! `IDBRequest` / `IDBOpenDBRequest`: ready state and the rules that read
//! it.

use vstd::prelude::*;

use crate::error::IdbError;

verus! {

/// Ready state of a request.
#[derive(Debug, Clone, Copy, PartialEq, Eq, Structural)]
pub enum ReadyState {
    Pending,
    Done,
}

/// Native data of an `IDBOpenDBRequest` (its request state lives in the
/// `IDBRequest` it extends).
#[derive(Debug)]
pub struct IdBOpenDBRequest;

/// `readyState` as scripts see it.
pub fn ready_state_name(state: ReadyState) -> (r: &'static str)
    ensures
        r@ == (match state {
            ReadyState::Pending => "pending"@,
            ReadyState::Done => "done"@,
        }),
{
    match state {
        ReadyState::Pending => "pending",
        ReadyState::Done => "done",
    }
}

/// `result` can only be read once the request is done (`InvalidState`
/// while it is pending).
pub fn result_readable(state: ReadyState) -> (r: Result<(), IdbError>)
    ensures
        r is Ok <==> state == ReadyState::Done,
        r is Err ==> r->Err_0 is InvalidState,
        r matches Err(IdbError::InvalidState(m)) ==> m@ == "The request has not finished."@,
{
    match state {
        ReadyState::Done => Ok(()),
        ReadyState::Pending => Err(IdbError::InvalidState("The request has not finished.".to_string())),
    }
}

/// A failed request aborts its transaction unless a listener cancelled the
/// `error` event, on the request or on the transaction.
pub fn error_aborts_transaction(request_prevented: bool, txn_prevented: bool) -> (r: bool)
    ensures
        r == (!request_prevented && !txn_prevented),
{
    !request_prevented && !txn_prevented
}

} // verus!
