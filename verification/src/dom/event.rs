//! Event state (the flags listeners read and set) and the order in which
//! dispatch visits the event path.

use vstd::prelude::*;

verus! {

/// `eventPhase` values.
pub const NONE: u8 = 0;
pub const CAPTURING_PHASE: u8 = 1;
pub const AT_TARGET: u8 = 2;
pub const BUBBLING_PHASE: u8 = 3;

/// The plain state of an `Event`.
#[derive(Debug, Clone)]
pub struct EventData {
    pub event_type: String,
    pub bubbles: bool,
    pub cancelable: bool,
    pub default_prevented: bool,
    pub event_phase: u8,
    pub propagation_stopped: bool,
    pub immediate_propagation_stopped: bool,
    pub is_trusted: bool,
}

impl EventData {
    /// A fresh, untrusted event that no listener has seen.
    pub fn new(event_type: String, bubbles: bool, cancelable: bool) -> (r: Self)
        ensures
            r.event_type@ == event_type@,
            r.bubbles == bubbles,
            r.cancelable == cancelable,
            !r.default_prevented,
            r.event_phase == NONE,
            !r.propagation_stopped,
            !r.immediate_propagation_stopped,
            !r.is_trusted,
    {
        EventData {
            event_type,
            bubbles,
            cancelable,
            default_prevented: false,
            event_phase: NONE,
            propagation_stopped: false,
            immediate_propagation_stopped: false,
            is_trusted: false,
        }
    }

    /// `preventDefault()`: only a cancelable event is marked.
    pub fn prevent_default(&mut self)
        ensures
            *final(self) == (EventData { default_prevented: old(self).default_prevented || old(self).cancelable, ..*old(self) }),
    {
        if self.cancelable {
            self.default_prevented = true;
        }
    }

    /// `stopPropagation()`.
    pub fn stop_propagation(&mut self)
        ensures
            *final(self) == (EventData { propagation_stopped: true, ..*old(self) }),
    {
        self.propagation_stopped = true;
    }

    /// `stopImmediatePropagation()`: also stops propagation.
    pub fn stop_immediate_propagation(&mut self)
        ensures
            *final(self) == (EventData { propagation_stopped: true, immediate_propagation_stopped: true, ..*old(self) }),
    {
        self.propagation_stopped = true;
        self.immediate_propagation_stopped = true;
    }
}

/// Events the driver fires are cancelable exactly when they are `error`
/// events (cancelling one keeps the transaction alive).
pub fn event_cancelable(event_type: &str) -> (r: bool)
    ensures
        r == (event_type@ == "error"@),
{
    crate::text::str_eq(event_type, "error")
}

/// A node of the event path: an ancestor of the target (0 is the nearest)
/// or the target itself.
#[derive(Debug, Clone, Copy, PartialEq, Eq, Structural)]
pub enum PathNode {
    Ancestor(usize),
    Target,
}

/// One visit of dispatch: the node, the phase, and which listeners run
/// there (`Some(true)`: capture ones, `Some(false)`: the others, `None`:
/// all, in registration order).
#[derive(Debug, Clone, Copy, PartialEq, Eq, Structural)]
pub struct Visit {
    pub node: PathNode,
    pub phase: u8,
    pub capture: Option<bool>,
}

/// The visits of a dispatch over `path_len` ancestors: capturing from the
/// root down, the target, then (for a bubbling event) back up to the root.
pub open spec fn dispatch_plan(path_len: nat, bubbles: bool) -> Seq<Visit> {
    let capture = Seq::new(path_len, |i: int| Visit {
        node: PathNode::Ancestor((path_len - 1 - i) as usize),
        phase: CAPTURING_PHASE,
        capture: Some(true),
    });
    let target = seq![Visit { node: PathNode::Target, phase: AT_TARGET, capture: None }];
    let bubble = if bubbles {
        Seq::new(path_len, |i: int| Visit { node: PathNode::Ancestor(i as usize), phase: BUBBLING_PHASE, capture: Some(false) })
    } else {
        Seq::empty()
    };
    capture + target + bubble
}

/// What dispatch does next.
#[derive(Debug, Clone, Copy, PartialEq, Eq, Structural)]
pub enum DispatchStep {
    /// Make the node the current target in the phase and run its
    /// listeners.
    Visit(Visit),
    /// Stop; `reset` clears the current target and phase (only when the
    /// whole path was walked).
    Finish { reset: bool },
}

/// Progress of one dispatch through its plan.
pub struct Dispatch {
    path_len: usize,
    bubbles: bool,
    next: usize,
}

impl Dispatch {
    pub closed spec fn spec_path_len(&self) -> nat {
        self.path_len as nat
    }

    pub closed spec fn spec_bubbles(&self) -> bool {
        self.bubbles
    }

    /// Visits taken so far.
    pub closed spec fn spec_next(&self) -> nat {
        self.next as nat
    }

    /// Internal consistency: never past the end of the plan.
    pub closed spec fn wf(&self) -> bool {
        &&& self.next <= dispatch_plan(self.path_len as nat, self.bubbles).len()
        &&& 2 * self.path_len + 1 <= usize::MAX
    }

    /// Starts a dispatch over `path_len` ancestors.
    pub fn new(path_len: usize, bubbles: bool) -> (r: Self)
        requires
            2 * path_len + 1 <= usize::MAX,
        ensures
            r.wf(),
            r.spec_path_len() == path_len,
            r.spec_bubbles() == bubbles,
            r.spec_next() == 0,
    {
        Dispatch { path_len, bubbles, next: 0 }
    }

    /// The next step, given the event's flags after the previous visit:
    /// finish at once when propagation was stopped, otherwise the next
    /// visit of the plan, or a finish with reset after the last one.
    pub fn step(&mut self, event: &EventData) -> (r: DispatchStep)
        requires
            old(self).wf(),
        ensures
            final(self).wf(),
            final(self).spec_path_len() == old(self).spec_path_len(),
            final(self).spec_bubbles() == old(self).spec_bubbles(),
            ({
                let plan = dispatch_plan(old(self).spec_path_len(), old(self).spec_bubbles());
                let n = old(self).spec_next();
                if event.propagation_stopped {
                    r == DispatchStep::Finish { reset: false } && final(self).spec_next() == n
                } else if n < plan.len() {
                    r == DispatchStep::Visit(plan[n as int]) && final(self).spec_next() == n + 1
                } else {
                    r == DispatchStep::Finish { reset: true } && final(self).spec_next() == n
                }
            }),
    {
        if event.propagation_stopped {
            return DispatchStep::Finish { reset: false };
        }
        let len = self.path_len;
        let n = self.next;
        let ghost plan = dispatch_plan(len as nat, self.bubbles);
        let total = if self.bubbles {
            2 * len + 1
        } else {
            len + 1
        };
        assert(plan.len() == total);
        if n >= total {
            return DispatchStep::Finish { reset: true };
        }
        let v = if n < len {
            Visit { node: PathNode::Ancestor(len - 1 - n), phase: CAPTURING_PHASE, capture: Some(true) }
        } else if n == len {
            Visit { node: PathNode::Target, phase: AT_TARGET, capture: None }
        } else {
            Visit { node: PathNode::Ancestor(n - len - 1), phase: BUBBLING_PHASE, capture: Some(false) }
        };
        assert(v == plan[n as int]);
        self.next = n + 1;
        DispatchStep::Visit(v)
    }
}

/// `(id, callback, once)` of the listeners that run in a visit, from the
/// `(id, callback, capture, once)` snapshot of the node, in order.
pub open spec fn listeners_for(snapshot: Seq<(u64, u64, bool, bool)>, capture: Option<bool>) -> Seq<(u64, u64, bool)>
    decreases snapshot.len(),
{
    if snapshot.len() == 0 {
        Seq::empty()
    } else {
        let rest = listeners_for(snapshot.drop_last(), capture);
        let (id, callback, cap, once) = snapshot.last();
        if capture is None || capture == Some(cap) {
            rest.push((id, callback, once))
        } else {
            rest
        }
    }
}

/// A snapshot entry `(id, callback, capture, once)` takes part in a visit
/// that runs listeners registered with `capture` (`None`: all of them).
pub open spec fn takes_part(capture: Option<bool>) -> spec_fn((u64, u64, bool, bool)) -> bool {
    |e: (u64, u64, bool, bool)| capture is None || capture == Some(e.2)
}

/// `(id, callback, once)` of a snapshot entry.
pub open spec fn run_entry(e: (u64, u64, bool, bool)) -> (u64, u64, bool) {
    (e.0, e.1, e.3)
}

/// `(id, callback, once)` of each entry, in order.
pub open spec fn run_entries(s: Seq<(u64, u64, bool, bool)>) -> Seq<(u64, u64, bool)> {
    s.map_values(|e: (u64, u64, bool, bool)| run_entry(e))
}

/// The listeners of a visit are exactly the snapshot entries registered
/// for its phase, kept in registration order and nothing else.
pub proof fn lemma_listeners_in_registration_order(snapshot: Seq<(u64, u64, bool, bool)>, capture: Option<bool>)
    ensures
        listeners_for(snapshot, capture) == run_entries(snapshot.filter(takes_part(capture))),
    decreases snapshot.len(),
{
    reveal(Seq::filter);
    if snapshot.len() == 0 {
        assert(run_entries(snapshot.filter(takes_part(capture))) =~= Seq::empty());
    } else {
        lemma_listeners_in_registration_order(snapshot.drop_last(), capture);
        let prev = snapshot.drop_last().filter(takes_part(capture));
        if takes_part(capture)(snapshot.last()) {
            assert(run_entries(prev.push(snapshot.last())) =~= run_entries(prev).push(run_entry(snapshot.last())));
        }
    }
}

/// Selects the listeners of a visit from a node's snapshot.
pub fn phase_listeners(snapshot: &Vec<(u64, u64, bool, bool)>, capture: Option<bool>) -> (r: Vec<(u64, u64, bool)>)
    ensures
        r@ == listeners_for(snapshot@, capture),
        r@ == run_entries(snapshot@.filter(takes_part(capture))),
{
    proof {
        lemma_listeners_in_registration_order(snapshot@, capture);
    }
    let mut out: Vec<(u64, u64, bool)> = Vec::new();
    let mut i: usize = 0;
    while i < snapshot.len()
        invariant
            i <= snapshot@.len(),
            out@ == listeners_for(snapshot@.subrange(0, i as int), capture),
        decreases snapshot@.len() - i,
    {
        proof {
            assert(snapshot@.subrange(0, i + 1).drop_last() =~= snapshot@.subrange(0, i as int));
        }
        let (id, callback, cap, once) = snapshot[i];
        let take = match capture {
            None => true,
            Some(c) => c == cap,
        };
        if take {
            out.push((id, callback, once));
        }
        i = i + 1;
    }
    proof {
        assert(snapshot@.subrange(0, snapshot@.len() as int) =~= snapshot@);
    }
    out
}

/// What the listeners of one visit do next.
#[derive(Debug, Clone, Copy, PartialEq, Eq, Structural)]
pub enum ListenerStep {
    /// Call the listener's callback; a `once` listener is unregistered
    /// (`remove`) before it runs.
    Invoke { id: u64, callback: u64, remove: bool },
    /// No further listener of this visit runs.
    Done,
}

/// The listeners of one visit, run in registration order until one of
/// them stops immediate propagation.
pub struct ListenerRun {
    listeners: Vec<(u64, u64, bool)>,
    next: usize,
}

impl ListenerRun {
    /// The `(id, callback, once)` listeners of the visit.
    pub closed spec fn spec_listeners(&self) -> Seq<(u64, u64, bool)> {
        self.listeners@
    }

    /// Listeners handed out so far.
    pub closed spec fn spec_next(&self) -> nat {
        self.next as nat
    }

    /// Starts a run over the listeners `phase_listeners` selected.
    pub fn new(listeners: Vec<(u64, u64, bool)>) -> (r: Self)
        ensures
            r.spec_listeners() == listeners@,
            r.spec_next() == 0,
    {
        ListenerRun { listeners, next: 0 }
    }

    /// The next listener to call, given whether the event's immediate
    /// propagation was stopped by the listeners run so far.
    pub fn step(&mut self, immediate_stopped: bool) -> (r: ListenerStep)
        ensures
            final(self).spec_listeners() == old(self).spec_listeners(),
            ({
                let ls = old(self).spec_listeners();
                let n = old(self).spec_next();
                if immediate_stopped || n >= ls.len() {
                    r == ListenerStep::Done && final(self).spec_next() == n
                } else {
                    &&& r == (ListenerStep::Invoke { id: ls[n as int].0, callback: ls[n as int].1, remove: ls[n as int].2 })
                    &&& final(self).spec_next() == n + 1
                }
            }),
    {
        if immediate_stopped || self.next >= self.listeners.len() {
            return ListenerStep::Done;
        }
        let (id, callback, once) = self.listeners[self.next];
        self.next = self.next + 1;
        ListenerStep::Invoke { id, callback, remove: once }
    }
}

/// Every ancestor is visited once while capturing, before the target, and
/// (for a bubbling event) once more while bubbling, after it; the target
/// is visited once, with all its listeners.
pub proof fn lemma_plan_shape(path_len: nat, bubbles: bool)
    ensures
        dispatch_plan(path_len, bubbles).len() == if bubbles { 2 * path_len + 1 } else { path_len + 1 },
        dispatch_plan(path_len, bubbles)[path_len as int] == (Visit { node: PathNode::Target, phase: AT_TARGET, capture: None }),
        forall|i: int| 0 <= i < path_len ==> #[trigger] dispatch_plan(path_len, bubbles)[i].phase == CAPTURING_PHASE,
        forall|i: int| path_len < i < dispatch_plan(path_len, bubbles).len() ==> #[trigger] dispatch_plan(path_len, bubbles)[i].phase == BUBBLING_PHASE,
        path_len > 0 ==> dispatch_plan(path_len, bubbles)[0].node == PathNode::Ancestor((path_len - 1) as usize),
{
}

} // verus!
