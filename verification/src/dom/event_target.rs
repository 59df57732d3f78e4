//! Event listener lists of the IndexedDB event targets.
//!
//! A callback is identified by a handle that the host hands out per
//! distinct callback value, so two registrations name the same callback
//! exactly when their handles are equal.

use vstd::prelude::*;

use crate::text::str_eq;

verus! {

/// `EventTarget`: its methods are added to the IndexedDB classes, which
/// keep their own listener lists.
pub struct EventTarget;

/// A registered event listener.
#[derive(Debug, Clone)]
pub struct EventListenerEntry {
    pub event_type: String,
    /// Handle of the callback value.
    pub callback: u64,
    pub capture: bool,
    pub once: bool,
    pub passive: bool,
    /// Registration id.
    pub id: u64,
}

/// Two entries are registrations of the same listener: same type,
/// callback and capture flag.
pub open spec fn same_listener(a: EventListenerEntry, event_type: Seq<char>, callback: u64, capture: bool) -> bool {
    a.event_type@ == event_type && a.callback == callback && a.capture == capture
}

/// No listener is registered twice.
pub open spec fn no_duplicates(l: Seq<EventListenerEntry>) -> bool {
    forall|i: int, j: int|
        0 <= i < j < l.len() ==> !same_listener(l[i], l[j].event_type@, l[j].callback, l[j].capture)
}

/// Some entry is a registration of the listener.
pub open spec fn has_listener(l: Seq<EventListenerEntry>, event_type: Seq<char>, callback: u64, capture: bool) -> bool {
    exists|i: int| 0 <= i < l.len() && same_listener(#[trigger] l[i], event_type, callback, capture)
}

/// Position of a registration of the listener, if any.
fn find_listener(listeners: &Vec<EventListenerEntry>, event_type: &str, callback: u64, capture: bool) -> (r: Option<usize>)
    ensures
        r matches Some(i) ==> i < listeners@.len() && same_listener(listeners@[i as int], event_type@, callback, capture),
        r is None ==> !has_listener(listeners@, event_type@, callback, capture),
{
    let mut i: usize = 0;
    while i < listeners.len()
        invariant
            i <= listeners@.len(),
            forall|j: int| 0 <= j < i ==> !same_listener(#[trigger] listeners@[j], event_type@, callback, capture),
        decreases listeners@.len() - i,
    {
        let l = &listeners[i];
        if l.callback == callback && l.capture == capture && str_eq(l.event_type.as_str(), event_type) {
            return Some(i);
        }
        i = i + 1;
    }
    None
}

/// `addEventListener`: appends the entry unless the same listener (type,
/// callback, capture) is already registered. Returns whether it was added.
pub fn add_listener(listeners: &mut Vec<EventListenerEntry>, entry: EventListenerEntry) -> (added: bool)
    ensures
        added == !has_listener(old(listeners)@, entry.event_type@, entry.callback, entry.capture),
        added ==> final(listeners)@ == old(listeners)@.push(entry),
        !added ==> final(listeners)@ == old(listeners)@,
{
    match find_listener(listeners, entry.event_type.as_str(), entry.callback, entry.capture) {
        Some(_) => false,
        None => {
            listeners.push(entry);
            true
        },
    }
}

/// Entries that are not registrations of the listener.
pub open spec fn keeps_not(event_type: Seq<char>, callback: u64, capture: bool) -> spec_fn(EventListenerEntry) -> bool {
    |e: EventListenerEntry| !same_listener(e, event_type, callback, capture)
}

/// Entries whose registration id is not `id`.
pub open spec fn id_is_not(id: u64) -> spec_fn(EventListenerEntry) -> bool {
    |e: EventListenerEntry| e.id != id
}

/// Entries of type `event_type`.
pub open spec fn type_is(event_type: Seq<char>) -> spec_fn(EventListenerEntry) -> bool {
    |e: EventListenerEntry| e.event_type@ == event_type
}

/// The entries of `l`, in order, without the registrations of the
/// listener.
pub open spec fn without_listener(l: Seq<EventListenerEntry>, event_type: Seq<char>, callback: u64, capture: bool) -> Seq<EventListenerEntry> {
    l.filter(keeps_not(event_type, callback, capture))
}

/// `removeEventListener`: drops every registration of the listener.
pub fn remove_listener(listeners: &mut Vec<EventListenerEntry>, event_type: &str, callback: u64, capture: bool)
    ensures
        final(listeners)@ == without_listener(old(listeners)@, event_type@, callback, capture),
{
        let mut kept: Vec<EventListenerEntry> = Vec::new();
    let mut i: usize = 0;
    while i < listeners.len()
        invariant
            i <= listeners@.len(),
            kept@ == listeners@.subrange(0, i as int).filter(keeps_not(event_type@, callback, capture)),
        decreases listeners@.len() - i,
    {
        proof {
            lemma_filter_step(listeners@, keeps_not(event_type@, callback, capture), i as int);
        }
        let e = &listeners[i];
        let hit = e.callback == callback && e.capture == capture && str_eq(e.event_type.as_str(), event_type);
        if !hit {
            kept.push(e.clone_entry());
        }
        i = i + 1;
    }
    proof {
        assert(listeners@.subrange(0, listeners@.len() as int) =~= listeners@);
    }
    *listeners = kept;
}

proof fn lemma_filter_step(s: Seq<EventListenerEntry>, f: spec_fn(EventListenerEntry) -> bool, i: int)
    requires
        0 <= i < s.len(),
    ensures
        s.subrange(0, i + 1).filter(f) == if f(s[i]) {
            s.subrange(0, i).filter(f).push(s[i])
        } else {
            s.subrange(0, i).filter(f)
        },
{
    reveal(Seq::filter);
    assert(s.subrange(0, i + 1).drop_last() =~= s.subrange(0, i));
}

/// `removeListenerById`: drops the entries with registration id `id`.
pub fn remove_listener_by_id(listeners: &mut Vec<EventListenerEntry>, id: u64)
    ensures
        final(listeners)@ == old(listeners)@.filter(id_is_not(id)),
{
        let mut kept: Vec<EventListenerEntry> = Vec::new();
    let mut i: usize = 0;
    while i < listeners.len()
        invariant
            i <= listeners@.len(),
            kept@ == listeners@.subrange(0, i as int).filter(id_is_not(id)),
        decreases listeners@.len() - i,
    {
        proof {
            lemma_filter_step(listeners@, id_is_not(id), i as int);
        }
        if listeners[i].id != id {
            kept.push(listeners[i].clone_entry());
        }
        i = i + 1;
    }
    proof {
        assert(listeners@.subrange(0, listeners@.len() as int) =~= listeners@);
    }
    *listeners = kept;
}

impl EventListenerEntry {
    /// A copy of the entry.
    pub fn clone_entry(&self) -> (r: Self)
        ensures
            r == *self,
    {
        let event_type = self.event_type.clone();
        EventListenerEntry {
            event_type,
            callback: self.callback,
            capture: self.capture,
            once: self.once,
            passive: self.passive,
            id: self.id,
        }
    }
}

/// `(id, callback, capture, once)` of a listener.
pub open spec fn full_record(e: EventListenerEntry) -> (u64, u64, bool, bool) {
    (e.id, e.callback, e.capture, e.once)
}

/// The listeners of `event_type`, in registration order.
pub open spec fn of_type(l: Seq<EventListenerEntry>, event_type: Seq<char>) -> Seq<EventListenerEntry> {
    l.filter(type_is(event_type))
}

/// `(id, callback, capture, once)` of the listeners of `event_type`, in
/// registration order.
pub fn snapshot_listeners_full(listeners: &Vec<EventListenerEntry>, event_type: &str) -> (r: Vec<(u64, u64, bool, bool)>)
    ensures
        r@ == of_type(listeners@, event_type@).map_values(|e: EventListenerEntry| full_record(e)),
{
        let mut out: Vec<(u64, u64, bool, bool)> = Vec::new();
    let mut i: usize = 0;
    while i < listeners.len()
        invariant
            i <= listeners@.len(),
            out@ == listeners@.subrange(0, i as int).filter(type_is(event_type@)).map_values(|e: EventListenerEntry| full_record(e)),
        decreases listeners@.len() - i,
    {
        proof {
            lemma_filter_step(listeners@, type_is(event_type@), i as int);
        }
        let l = &listeners[i];
        if str_eq(l.event_type.as_str(), event_type) {
            out.push((l.id, l.callback, l.capture, l.once));
            proof {
                let s = listeners@.subrange(0, i as int).filter(type_is(event_type@));
                assert(s.push(listeners@[i as int]).map_values(|e: EventListenerEntry| full_record(e))
                    =~= s.map_values(|e: EventListenerEntry| full_record(e)).push(full_record(listeners@[i as int])));
            }
        }
        i = i + 1;
    }
    proof {
        assert(listeners@.subrange(0, listeners@.len() as int) =~= listeners@);
    }
    out
}

/// `(id, callback, once)` of the listeners of `event_type`, in
/// registration order.
pub fn snapshot_listeners(listeners: &Vec<EventListenerEntry>, event_type: &str) -> (r: Vec<(u64, u64, bool)>)
    ensures
        r@ == of_type(listeners@, event_type@).map_values(|e: EventListenerEntry| (e.id, e.callback, e.once)),
{
    let full = snapshot_listeners_full(listeners, event_type);
    let ghost src = of_type(listeners@, event_type@);
    let mut out: Vec<(u64, u64, bool)> = Vec::new();
    let mut i: usize = 0;
    while i < full.len()
        invariant
            i <= full@.len(),
            full@ == src.map_values(|e: EventListenerEntry| full_record(e)),
            out@ == src.subrange(0, i as int).map_values(|e: EventListenerEntry| (e.id, e.callback, e.once)),
        decreases full@.len() - i,
    {
        let (id, callback, _capture, once) = full[i];
        out.push((id, callback, once));
        proof {
            assert(src.subrange(0, i + 1).map_values(|e: EventListenerEntry| (e.id, e.callback, e.once))
                =~= src.subrange(0, i as int).map_values(|e: EventListenerEntry| (e.id, e.callback, e.once)).push((id, callback, once)));
        }
        i = i + 1;
    }
    proof {
        assert(src.subrange(0, src.len() as int) =~= src);
    }
    out
}

/// The largest registration id plus one (0 for no listeners).
pub open spec fn next_id_of(l: Seq<EventListenerEntry>) -> int
    decreases l.len(),
{
    if l.len() == 0 {
        0
    } else {
        let rest = next_id_of(l.drop_last());
        if l.last().id + 1 > rest {
            l.last().id + 1
        } else {
            rest
        }
    }
}

/// Next listener id: one more than the largest id in use (ids stay below
/// `u64::MAX`).
pub fn next_listener_id(listeners: &Vec<EventListenerEntry>) -> (r: u64)
    requires
        forall|i: int| 0 <= i < listeners@.len() ==> #[trigger] listeners@[i].id < u64::MAX,
    ensures
        r == next_id_of(listeners@),
        forall|i: int| 0 <= i < listeners@.len() ==> #[trigger] listeners@[i].id < r,
{
    let mut next: u64 = 0;
    let mut i: usize = 0;
    while i < listeners.len()
        invariant
            i <= listeners@.len(),
            forall|k: int| 0 <= k < listeners@.len() ==> #[trigger] listeners@[k].id < u64::MAX,
            next == next_id_of(listeners@.subrange(0, i as int)),
            forall|k: int| 0 <= k < i ==> #[trigger] listeners@[k].id < next,
        decreases listeners@.len() - i,
    {
        proof {
            assert(listeners@.subrange(0, i + 1).drop_last() =~= listeners@.subrange(0, i as int));
        }
        let cand = listeners[i].id + 1;
        if cand > next {
            next = cand;
        }
        i = i + 1;
    }
    proof {
        assert(listeners@.subrange(0, listeners@.len() as int) =~= listeners@);
    }
    next
}

/// Adding keeps a list free of duplicate registrations, and after a
/// removal the listener is no longer registered.
pub proof fn lemma_add_remove(
    l: Seq<EventListenerEntry>,
    entry: EventListenerEntry,
    event_type: Seq<char>,
    callback: u64,
    capture: bool,
)
    requires
        no_duplicates(l),
    ensures
        !has_listener(l, entry.event_type@, entry.callback, entry.capture) ==> no_duplicates(l.push(entry)),
        !has_listener(without_listener(l, event_type, callback, capture), event_type, callback, capture),
{
    let f = keeps_not(event_type, callback, capture);
    let w = l.filter(f);
    assert forall|i: int| 0 <= i < w.len() implies !same_listener(#[trigger] w[i], event_type, callback, capture) by {
        l.lemma_filter_pred(f, i);
    }
    if !has_listener(l, entry.event_type@, entry.callback, entry.capture) {
        let p = l.push(entry);
        assert forall|i: int, j: int| 0 <= i < j < p.len() implies !same_listener(p[i], p[j].event_type@, p[j].callback, p[j].capture) by {
            if j == l.len() {
                assert(!same_listener(l[i], entry.event_type@, entry.callback, entry.capture));
            }
        }
    }
}

} // verus!
