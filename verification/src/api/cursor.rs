//! Checks behind the `IDBCursor` methods.

use vstd::prelude::*;

use crate::api::support::ApiError;
use crate::cursor_ops::CursorView;
use crate::error::{message_of, IdbError};
use crate::proto::Direction;

verus! {

/// The cursor holds a value it may act on: `InvalidState` while a
/// navigation request is still pending, or once it is exhausted.
pub fn require_position(view: &CursorView) -> (r: Result<(), IdbError>)
    ensures
        r is Ok <==> view.current is Some && !view.pending,
        r is Err ==> r->Err_0 is InvalidState && message_of(r->Err_0) == if view.pending {
            "The cursor is being iterated."@
        } else {
            "The cursor is exhausted."@
        },
{
    if view.pending {
        return Err(IdbError::InvalidState("The cursor is being iterated.".to_string()));
    }
    match &view.current {
        Some(_) => Ok(()),
        None => Err(IdbError::InvalidState("The cursor is exhausted.".to_string())),
    }
}

/// `advance(count)` needs a count of at least one (`TypeError`).
pub fn advance_count_check(count: u32) -> (r: Result<(), ApiError>)
    ensures
        r is Ok <==> count > 0,
        r is Err ==> (r->Err_0 matches ApiError::Type(m) && m@ == "advance count must not be 0"@),
{
    if count == 0 {
        Err(ApiError::Type("advance count must not be 0".to_string()))
    } else {
        Ok(())
    }
}

/// `continuePrimaryKey()` is for index cursors walking `next` or `prev`
/// (`InvalidAccess` otherwise, the direction checked first).
pub fn continue_primary_key_check(view: &CursorView) -> (r: Result<(), IdbError>)
    ensures
        r is Ok <==> (view.direction is Next || view.direction is Prev) && view.is_index,
        r is Err ==> r->Err_0 is InvalidAccess && message_of(r->Err_0) == if view.direction is Next || view.direction is Prev {
            "continuePrimaryKey requires an index cursor"@
        } else {
            "continuePrimaryKey requires next/prev direction"@
        },
{
    match view.direction {
        Direction::Next | Direction::Prev => {},
        _ => {
            return Err(IdbError::InvalidAccess("continuePrimaryKey requires next/prev direction".to_string()));
        },
    }
    if !view.is_index {
        return Err(IdbError::InvalidAccess("continuePrimaryKey requires an index cursor".to_string()));
    }
    Ok(())
}

/// `update()` and `delete()` on a positioned cursor: not on key cursors
/// (`InvalidState`), and not in a read-only transaction (`ReadOnly`).
pub fn cursor_write_check(view: &CursorView, read_only: bool) -> (r: Result<(), IdbError>)
    ensures
        view.key_only ==> (r matches Err(e) && e is InvalidState
            && message_of(e) == "The operation is not available on key cursors."@),
        !view.key_only && read_only ==> (r matches Err(e) && e is ReadOnly),
        !view.key_only && !read_only ==> r is Ok,
{
    if view.key_only {
        return Err(IdbError::InvalidState("The operation is not available on key cursors.".to_string()));
    }
    if read_only {
        return Err(IdbError::ReadOnly);
    }
    Ok(())
}

} // verus!
