//! Plain protocol values shared by the request queue, cursors and
//! transactions.

use vstd::prelude::*;

use crate::text::str_eq;

verus! {

/// Transaction mode.
#[derive(Debug, Clone, Copy, PartialEq, Eq, Structural)]
pub enum TxnMode {
    ReadOnly,
    ReadWrite,
    VersionChange,
}

/// Durability hint of a transaction.
#[derive(Debug, Clone, Copy, PartialEq, Eq, Structural)]
pub enum Durability {
    Default,
    Strict,
    Relaxed,
}

/// Cursor direction.
#[derive(Debug, Clone, Copy, PartialEq, Eq, Structural)]
pub enum Direction {
    Next,
    NextUnique,
    Prev,
    PrevUnique,
}

impl Direction {
    pub open spec fn spec_is_prev(self) -> bool {
        self is Prev || self is PrevUnique
    }

    /// Whether the direction walks keys downwards.
    pub fn is_prev(&self) -> (r: bool)
        ensures
            r == self.spec_is_prev(),
    {
        match self {
            Direction::Prev | Direction::PrevUnique => true,
            _ => false,
        }
    }

    pub open spec fn spec_is_unique(self) -> bool {
        self is NextUnique || self is PrevUnique
    }
}

/// The object store or index a request reads from.
#[derive(Debug, Clone, Copy, PartialEq, Eq, Structural)]
pub enum SourceRef {
    Store(u64),
    Index { store: u64, index: u64 },
}

pub open spec fn spec_store_of(source: SourceRef) -> u64 {
    match source {
        SourceRef::Store(id) => id,
        SourceRef::Index { store, .. } => store,
    }
}

/// Store id for a source.
pub fn store_of(source: SourceRef) -> (r: u64)
    ensures
        r == spec_store_of(source),
{
    match source {
        SourceRef::Store(id) => id,
        SourceRef::Index { store, .. } => store,
    }
}

/// Short mode name for span attributes.
pub fn txn_mode_name(mode: TxnMode) -> (r: &'static str)
    ensures
        r@ == (match mode {
            TxnMode::ReadOnly => "readonly"@,
            TxnMode::ReadWrite => "readwrite"@,
            TxnMode::VersionChange => "versionchange"@,
        }),
{
    match mode {
        TxnMode::ReadOnly => "readonly",
        TxnMode::ReadWrite => "readwrite",
        TxnMode::VersionChange => "versionchange",
    }
}

/// Direction name, as the `direction` attribute reports it.
pub fn direction_name(direction: Direction) -> (r: &'static str)
    ensures
        r@ == spec_direction_name(direction),
{
    match direction {
        Direction::Next => "next",
        Direction::NextUnique => "nextunique",
        Direction::Prev => "prev",
        Direction::PrevUnique => "prevunique",
    }
}

pub open spec fn spec_direction_name(direction: Direction) -> Seq<char> {
    match direction {
        Direction::Next => "next"@,
        Direction::NextUnique => "nextunique"@,
        Direction::Prev => "prev"@,
        Direction::PrevUnique => "prevunique"@,
    }
}

/// Parses a cursor direction name; `None` for any other string.
pub fn parse_direction_name(name: &str) -> (r: Option<Direction>)
    ensures
        r matches Some(d) ==> spec_direction_name(d) == name@,
        r is None ==> forall|d: Direction| spec_direction_name(d) != name@,
{
    if str_eq(name, "next") {
        Some(Direction::Next)
    } else if str_eq(name, "nextunique") {
        Some(Direction::NextUnique)
    } else if str_eq(name, "prev") {
        Some(Direction::Prev)
    } else if str_eq(name, "prevunique") {
        Some(Direction::PrevUnique)
    } else {
        None
    }
}

} // verus!
