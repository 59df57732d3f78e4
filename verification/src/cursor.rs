//! Cursor iteration over materialized rows: positioning, seeking by key
//! and by (key, primary key), and the argument checks of `continue()` and
//! `continuePrimaryKey()`.

use vstd::prelude::*;

use crate::error::{message_of, IdbError};
use crate::key::{compare_encoded_keys, key_le, key_lt, key_order, lemma_key_order_flip, KeyOrder};
use crate::proto::{Direction, SourceRef};

verus! {

/// A materialized cursor row: encoded key, encoded primary key and the
/// encoded value (absent for key-only cursors).
#[derive(Debug, Clone)]
pub struct CursorRow {
    pub key: Vec<u8>,
    pub primary_key: Vec<u8>,
    pub value: Option<Vec<u8>>,
}

/// Cursor action.
#[derive(Debug, Clone)]
pub enum CursorAction {
    /// `advance(count)`.
    Advance(u32),
    /// `continue(key?)`: `None` = no key argument.
    Continue(Option<Vec<u8>>),
    /// `continuePrimaryKey(key, primaryKey)`.
    ContinuePrimaryKey { key: Vec<u8>, primary_key: Vec<u8> },
    /// `update(value)` with the encoded new value.
    Update(Vec<u8>),
    /// `delete()`.
    Delete,
}

/// A live cursor state.
pub struct CursorState {
    /// Cursor id.
    pub cursor_id: u64,
    /// Owning transaction.
    pub txn_id: u64,
    /// Request that opened the cursor (reused for iteration).
    pub request_id: u64,
    /// Source.
    pub source: SourceRef,
    /// Direction.
    pub direction: Direction,
    /// Key-only.
    pub key_only: bool,
    /// Materialized rows in iteration order.
    pub rows: Vec<CursorRow>,
    /// Current index (`rows.len()` or more = exhausted).
    pub pos: usize,
    /// Whether a cursor request is currently pending.
    pub pending: bool,
}

/// `p` is the first index in `from..len` whose row satisfies `fits`, or
/// `len` when there is none.
pub open spec fn first_fit(fits: spec_fn(int) -> bool, from: int, len: int, p: int) -> bool {
    &&& (p == len || (from <= p < len && fits(p)))
    &&& forall|i: int| from <= i < p && i < len ==> !#[trigger] fits(i)
}

/// Rows at or after the target when walking upwards.
pub open spec fn fits_next(rows: Seq<CursorRow>, target: Seq<u8>) -> spec_fn(int) -> bool {
    |i: int| key_order(rows[i].key@, target) != KeyOrder::Less
}

/// Rows at or before the target when walking downwards.
pub open spec fn fits_prev(rows: Seq<CursorRow>, target: Seq<u8>) -> spec_fn(int) -> bool {
    |i: int| key_order(rows[i].key@, target) != KeyOrder::Greater
}

/// Rows not before `(key, primary)` in the direction's tuple order.
pub open spec fn fits_primary(
    rows: Seq<CursorRow>,
    key: Seq<u8>,
    primary: Seq<u8>,
    is_prev: bool,
) -> spec_fn(int) -> bool {
    |i: int|
        {
            let k = key_order(rows[i].key@, key);
            let pk = key_order(rows[i].primary_key@, primary);
            if is_prev {
                k == KeyOrder::Less || (k == KeyOrder::Equal && pk != KeyOrder::Greater)
            } else {
                k == KeyOrder::Greater || (k == KeyOrder::Equal && pk != KeyOrder::Less)
            }
        }
}

/// Position after a saturating advance by `n`.
pub open spec fn advanced(pos: usize, n: int) -> usize {
    if pos + n > usize::MAX {
        usize::MAX
    } else {
        (pos + n) as usize
    }
}

/// Where an action moves the cursor (`None`: the action does not move it).
pub open spec fn moves_to(state: CursorState, action: CursorAction, p: usize) -> bool {
    let rows = state.rows@;
    let len = rows.len() as int;
    let from = state.pos + 1;
    match action {
        CursorAction::Advance(n) => p == advanced(state.pos, n as int),
        CursorAction::Continue(None) => p == advanced(state.pos, 1),
        CursorAction::Continue(Some(t)) => if state.direction.spec_is_prev() {
            first_fit(fits_prev(rows, t@), from, len, p as int)
        } else {
            first_fit(fits_next(rows, t@), from, len, p as int)
        },
        CursorAction::ContinuePrimaryKey { key, primary_key } => first_fit(
            fits_primary(rows, key@, primary_key@, state.direction.spec_is_prev()),
            from,
            len,
            p as int,
        ),
        CursorAction::Update(_) | CursorAction::Delete => p == state.pos,
    }
}

impl CursorState {
    /// The row under the cursor, if the position is valid.
    pub fn current(&self) -> (r: Option<&CursorRow>)
        ensures
            self.pos < self.rows.len() ==> r == Some(&self.rows@[self.pos as int]),
            self.pos >= self.rows.len() ==> r is None,
    {
        if self.pos < self.rows.len() {
            Some(&self.rows[self.pos])
        } else {
            None
        }
    }

    /// Everything but the position is left as it was.
    pub open spec fn same_but_pos(self, other: CursorState) -> bool {
        &&& self.cursor_id == other.cursor_id
        &&& self.txn_id == other.txn_id
        &&& self.request_id == other.request_id
        &&& self.source == other.source
        &&& self.direction == other.direction
        &&& self.key_only == other.key_only
        &&& self.rows@ == other.rows@
        &&& self.pending == other.pending
    }
}

/// Moves to the first row after the current one, for which `fits` holds,
/// or past the end.
fn seek_next(state: &mut CursorState, target: &Vec<u8>)
    ensures
        first_fit(fits_next(old(state).rows@, target@), old(state).pos + 1, old(state).rows@.len() as int, final(state).pos as int),
        final(state).same_but_pos(*old(state)),
{
    let len = state.rows.len();
    if state.pos >= len {
        state.pos = len;
        return;
    }
    let mut i = state.pos + 1;
    while i < len
        invariant
            len == state.rows@.len(),
            old(state).pos < i <= len,
            state.same_but_pos(*old(state)),
            state.pos == old(state).pos,
            forall|j: int| old(state).pos + 1 <= j < i ==> !#[trigger] fits_next(state.rows@, target@)(j),
        decreases len - i,
    {
        let order = compare_encoded_keys(state.rows[i].key.as_slice(), target.as_slice());
        if order != KeyOrder::Less {
            state.pos = i;
            return;
        }
        i = i + 1;
    }
    state.pos = len;
}

/// Moves to the first row after the current one whose key is not above the
/// target, or past the end.
fn seek_prev(state: &mut CursorState, target: &Vec<u8>)
    ensures
        first_fit(fits_prev(old(state).rows@, target@), old(state).pos + 1, old(state).rows@.len() as int, final(state).pos as int),
        final(state).same_but_pos(*old(state)),
{
    let len = state.rows.len();
    if state.pos >= len {
        state.pos = len;
        return;
    }
    let mut i = state.pos + 1;
    while i < len
        invariant
            len == state.rows@.len(),
            old(state).pos < i <= len,
            state.same_but_pos(*old(state)),
            state.pos == old(state).pos,
            forall|j: int| old(state).pos + 1 <= j < i ==> !#[trigger] fits_prev(state.rows@, target@)(j),
        decreases len - i,
    {
        let order = compare_encoded_keys(state.rows[i].key.as_slice(), target.as_slice());
        if order != KeyOrder::Greater {
            state.pos = i;
            return;
        }
        i = i + 1;
    }
    state.pos = len;
}

/// Moves to the first row after the current one that is not before
/// `(key, primary)` in the cursor's tuple order, or past the end.
fn seek_primary(state: &mut CursorState, key: &Vec<u8>, primary: &Vec<u8>, is_prev: bool)
    ensures
        first_fit(fits_primary(old(state).rows@, key@, primary@, is_prev), old(state).pos + 1, old(state).rows@.len() as int, final(state).pos as int),
        final(state).same_but_pos(*old(state)),
{
    let len = state.rows.len();
    if state.pos >= len {
        state.pos = len;
        return;
    }
    let mut i = state.pos + 1;
    while i < len
        invariant
            len == state.rows@.len(),
            old(state).pos < i <= len,
            state.same_but_pos(*old(state)),
            state.pos == old(state).pos,
            forall|j: int| old(state).pos + 1 <= j < i ==> !#[trigger] fits_primary(state.rows@, key@, primary@, is_prev)(j),
        decreases len - i,
    {
        let k = compare_encoded_keys(state.rows[i].key.as_slice(), key.as_slice());
        let pk = compare_encoded_keys(state.rows[i].primary_key.as_slice(), primary.as_slice());
        let fits = if is_prev {
            k == KeyOrder::Less || (k == KeyOrder::Equal && pk != KeyOrder::Greater)
        } else {
            k == KeyOrder::Greater || (k == KeyOrder::Equal && pk != KeyOrder::Less)
        };
        if fits {
            state.pos = i;
            return;
        }
        i = i + 1;
    }
    state.pos = len;
}

fn saturating_advance(pos: usize, n: usize) -> (r: usize)
    ensures
        r == advanced(pos, n as int),
{
    if pos > usize::MAX - n {
        usize::MAX
    } else {
        pos + n
    }
}

/// Applies a cursor action; returns `false` when the cursor is exhausted.
pub fn apply_cursor_action(state: &mut CursorState, action: &CursorAction) -> (r: bool)
    ensures
        moves_to(*old(state), *action, final(state).pos),
        final(state).same_but_pos(*old(state)),
        r == (final(state).pos < final(state).rows.len()),
{
    let is_prev = state.direction.is_prev();
    match action {
        CursorAction::Advance(n) => {
            state.pos = saturating_advance(state.pos, *n as usize);
        },
        CursorAction::Continue(None) => {
            state.pos = saturating_advance(state.pos, 1);
        },
        CursorAction::Continue(Some(target)) => {
            if is_prev {
                seek_prev(state, target);
            } else {
                seek_next(state, target);
            }
        },
        CursorAction::ContinuePrimaryKey { key, primary_key } => {
            seek_primary(state, key, primary_key, is_prev);
        },
        CursorAction::Update(_) | CursorAction::Delete => {},
    }
    state.pos < state.rows.len()
}

/// Checks the key given to `continue(key)` against the current key.
///
/// The key must lie strictly beyond the current key in the cursor's
/// direction, whatever the direction.
pub fn check_continue_key(direction: Direction, current: &[u8], target: &[u8]) -> (r: Result<
    (),
    IdbError,
>)
    ensures
        r is Ok <==> ({
            let ord = key_order(target@, current@);
            if direction.spec_is_prev() {
                ord == KeyOrder::Less
            } else {
                ord == KeyOrder::Greater
            }
        }),
        r is Err ==> r->Err_0 is Data,
        r is Err ==> message_of(r->Err_0) == "continue() key is not in the cursor direction"@,
{
    let ord = compare_encoded_keys(target, current);
    let ok = match direction {
        Direction::Next | Direction::NextUnique => ord == KeyOrder::Greater,
        Direction::Prev | Direction::PrevUnique => ord == KeyOrder::Less,
    };
    if !ok {
        return Err(IdbError::Data("continue() key is not in the cursor direction".to_string()));
    }
    Ok(())
}

/// Checks the target of `continuePrimaryKey(key, primaryKey)` against the
/// current row (an exhausted cursor passes: it fails elsewhere).
pub fn check_continue_primary_key(
    direction: Direction,
    current: Option<&CursorRow>,
    key: &[u8],
    primary_key: &[u8],
) -> (r: Result<(), IdbError>)
    ensures
        r is Ok <==> (match current {
            None => true,
            Some(row) => {
                let k = key_order(key@, row.key@);
                let pk = key_order(primary_key@, row.primary_key@);
                match direction {
                    Direction::Next => k == KeyOrder::Greater || (k == KeyOrder::Equal && pk
                        == KeyOrder::Greater),
                    Direction::Prev => k == KeyOrder::Less || (k == KeyOrder::Equal && pk
                        == KeyOrder::Less),
                    _ => false,
                }
            },
        }),
        r is Err ==> r->Err_0 is Data,
        r is Err ==> message_of(r->Err_0) == "continuePrimaryKey target must advance in cursor direction."@,
{
    let row = match current {
        None => {
            return Ok(());
        },
        Some(row) => row,
    };
    let key_ord = compare_encoded_keys(key, row.key.as_slice());
    let valid = match direction {
        Direction::Next => key_ord == KeyOrder::Greater || (key_ord == KeyOrder::Equal
            && compare_encoded_keys(primary_key, row.primary_key.as_slice()) == KeyOrder::Greater),
        Direction::Prev => key_ord == KeyOrder::Less || (key_ord == KeyOrder::Equal
            && compare_encoded_keys(primary_key, row.primary_key.as_slice()) == KeyOrder::Less),
        Direction::NextUnique | Direction::PrevUnique => false,
    };
    if valid {
        Ok(())
    } else {
        Err(
            IdbError::Data(
                "continuePrimaryKey target must advance in cursor direction.".to_string(),
            ),
        )
    }
}

/// The action moves a cursor that is on a row.
pub open spec fn is_movement(action: CursorAction) -> bool {
    match action {
        CursorAction::Advance(n) => n >= 1,
        CursorAction::Continue(_) => true,
        CursorAction::ContinuePrimaryKey { .. } => true,
        CursorAction::Update(_) | CursorAction::Delete => false,
    }
}

/// A cursor never moves back: from a position at or before the end every
/// action lands at or after it, and an exhausted cursor stays exhausted.
/// From a row, `continue()`, `continue(key)`, `continuePrimaryKey()` and
/// `advance(n)` with `n >= 1` land strictly after it.
pub proof fn lemma_cursor_moves_forward(state: CursorState, action: CursorAction, p: usize)
    requires
        moves_to(state, action, p),
    ensures
        state.pos <= state.rows@.len() ==> p >= state.pos,
        state.pos >= state.rows@.len() ==> p >= state.rows@.len(),
        state.pos < state.rows@.len() && is_movement(action) ==> p > state.pos,
{
    assert(state.rows@.len() == state.rows.len());
}

/// `continue(key)` lands on the first row after the current one whose key
/// is at or beyond `key` in the cursor's direction: for `next` and
/// `nextunique` the first key `>= key`, for `prev` and `prevunique` the
/// first key `<= key` (a row whose key equals `key` is where it stops).
/// Every row it passes lies before `key`; with no such row it is
/// exhausted.
pub proof fn lemma_continue_key_lands(state: CursorState, target: Vec<u8>, p: usize)
    requires
        moves_to(state, CursorAction::Continue(Some(target)), p),
    ensures
        p == state.rows@.len() || (state.pos < p < state.rows@.len()),
        !state.direction.spec_is_prev() ==> {
            &&& p < state.rows@.len() ==> key_le(target@, state.rows@[p as int].key@)
            &&& forall|j: int| state.pos < j < p && j < state.rows@.len() ==> key_lt(#[trigger] state.rows@[j].key@, target@)
        },
        state.direction.spec_is_prev() ==> {
            &&& p < state.rows@.len() ==> key_le(state.rows@[p as int].key@, target@)
            &&& forall|j: int| state.pos < j < p && j < state.rows@.len() ==> key_lt(target@, #[trigger] state.rows@[j].key@)
        },
{
    let rows = state.rows@;
    if !state.direction.spec_is_prev() {
        if p < rows.len() {
            assert(fits_next(rows, target@)(p as int));
            lemma_key_order_flip(rows[p as int].key@, target@);
        }
        assert forall|j: int| state.pos < j < p && j < rows.len() implies key_lt(#[trigger] rows[j].key@, target@) by {
            assert(!fits_next(rows, target@)(j));
        }
    } else {
        if p < rows.len() {
            assert(fits_prev(rows, target@)(p as int));
        }
        assert forall|j: int| state.pos < j < p && j < rows.len() implies key_lt(target@, #[trigger] rows[j].key@) by {
            assert(!fits_prev(rows, target@)(j));
            lemma_key_order_flip(rows[j].key@, target@);
        }
    }
}

/// `continuePrimaryKey(key, primaryKey)` lands on the first row after the
/// current one whose `(key, primary key)` pair is at or beyond the target
/// pair in the cursor's direction; every row it passes lies before it.
pub proof fn lemma_continue_primary_key_lands(state: CursorState, key: Vec<u8>, primary: Vec<u8>, p: usize)
    requires
        moves_to(state, CursorAction::ContinuePrimaryKey { key, primary_key: primary }, p),
    ensures
        p == state.rows@.len() || (state.pos < p < state.rows@.len()),
        !state.direction.spec_is_prev() ==> {
            &&& p < state.rows@.len() ==> {
                let r = state.rows@[p as int];
                key_lt(key@, r.key@) || (r.key@ == key@ && key_le(primary@, r.primary_key@))
            }
            &&& forall|j: int| state.pos < j < p && j < state.rows@.len() ==> {
                let r = #[trigger] state.rows@[j];
                key_lt(r.key@, key@) || (r.key@ == key@ && key_lt(r.primary_key@, primary@))
            }
        },
        state.direction.spec_is_prev() ==> {
            &&& p < state.rows@.len() ==> {
                let r = state.rows@[p as int];
                key_lt(r.key@, key@) || (r.key@ == key@ && key_le(r.primary_key@, primary@))
            }
            &&& forall|j: int| state.pos < j < p && j < state.rows@.len() ==> {
                let r = #[trigger] state.rows@[j];
                key_lt(key@, r.key@) || (r.key@ == key@ && key_lt(primary@, r.primary_key@))
            }
        },
{
    let rows = state.rows@;
    let is_prev = state.direction.spec_is_prev();
    let f = fits_primary(rows, key@, primary@, is_prev);
    if p < rows.len() {
        assert(f(p as int));
        crate::key::lemma_key_order_equal(rows[p as int].key@, key@);
        lemma_key_order_flip(rows[p as int].key@, key@);
        lemma_key_order_flip(rows[p as int].primary_key@, primary@);
    }
    assert forall|j: int| state.pos < j < p && j < rows.len() implies {
        let r = #[trigger] rows[j];
        if is_prev {
            key_lt(key@, r.key@) || (r.key@ == key@ && key_lt(primary@, r.primary_key@))
        } else {
            key_lt(r.key@, key@) || (r.key@ == key@ && key_lt(r.primary_key@, primary@))
        }
    } by {
        assert(!f(j));
        crate::key::lemma_key_order_equal(rows[j].key@, key@);
        lemma_key_order_flip(rows[j].key@, key@);
        lemma_key_order_flip(rows[j].primary_key@, primary@);
    }
}

} // verus!
