//! The decisions of a database open or delete: what the pump does next
//! for an open, given what its database's open queue answered.

use vstd::prelude::*;

use crate::driver::{first_open_index, DriverState};
use crate::error::IdbError;

verus! {

/// What a database open queue asks for next (version compare, `blocked`,
/// upgrade and delete ordering are the queue's own decisions).
#[derive(Debug, Clone)]
pub enum QueueAction {
    /// Open a connection at `version`.
    OpenConnection { version: u64 },
    /// Fail the open request with `error`.
    FailOpen { error: IdbError },
    /// Other connections block the request: fire `blocked`.
    SendBlocked,
    /// Run a versionchange from `old_version` to `new_version`.
    StartUpgrade { old_version: u64, new_version: u64 },
    /// Delete the database.
    StartDelete,
}

/// The next step the pump takes for the open of a request.
#[derive(Debug, Clone)]
pub enum OpenStep {
    OpenConnection { request_id: u64, version: u64 },
    FailOpen { request_id: u64, error: IdbError },
    FireBlocked { request_id: u64 },
    StartUpgrade { request_id: u64, old_version: u64, new_version: u64 },
    StartDelete { request_id: u64 },
}

/// The step an action of an idle queue stands for; `SendBlocked` fires
/// `blocked` only while it has not fired yet for that open.
pub open spec fn queue_step_for(request_id: u64, action: QueueAction, blocked_pending: bool) -> Option<OpenStep> {
    match action {
        QueueAction::OpenConnection { version } => Some(OpenStep::OpenConnection { request_id, version }),
        QueueAction::FailOpen { error } => Some(OpenStep::FailOpen { request_id, error }),
        QueueAction::SendBlocked => if blocked_pending {
            Some(OpenStep::FireBlocked { request_id })
        } else {
            None
        },
        QueueAction::StartUpgrade { old_version, new_version } => Some(
            OpenStep::StartUpgrade { request_id, old_version, new_version },
        ),
        QueueAction::StartDelete => Some(OpenStep::StartDelete { request_id }),
    }
}

/// The step that follows the last blocking connection closing: only an
/// upgrade or a delete can have been waiting for it.
pub fn closed_step(request_id: u64, action: Option<QueueAction>) -> (r: Option<OpenStep>)
    ensures
        r == match action {
            Some(QueueAction::StartUpgrade { old_version, new_version }) => Some(
                OpenStep::StartUpgrade { request_id, old_version, new_version },
            ),
            Some(QueueAction::StartDelete) => Some(OpenStep::StartDelete { request_id }),
            _ => None,
        },
{
    match action {
        Some(QueueAction::StartUpgrade { old_version, new_version }) => Some(
            OpenStep::StartUpgrade { request_id, old_version, new_version },
        ),
        Some(QueueAction::StartDelete) => Some(OpenStep::StartDelete { request_id }),
        _ => None,
    }
}

/// Every answer of the queue is passed on unchanged, for the request it
/// was asked for: the version to open at, the error, and the old and new
/// versions of an upgrade are the queue's; `blocked` fires only while it
/// is still pending for the open.
pub proof fn lemma_queue_step_keeps_answer(request_id: u64, action: QueueAction, blocked_pending: bool)
    ensures
        action matches QueueAction::OpenConnection { version } ==> queue_step_for(request_id, action, blocked_pending)
            == Some(OpenStep::OpenConnection { request_id, version }),
        action matches QueueAction::FailOpen { error } ==> queue_step_for(request_id, action, blocked_pending)
            == Some(OpenStep::FailOpen { request_id, error }),
        action matches QueueAction::StartUpgrade { old_version, new_version } ==> queue_step_for(
            request_id,
            action,
            blocked_pending,
        ) == Some(OpenStep::StartUpgrade { request_id, old_version, new_version }),
        action is StartDelete ==> queue_step_for(request_id, action, blocked_pending) == Some(
            OpenStep::StartDelete { request_id },
        ),
        action is SendBlocked ==> (queue_step_for(request_id, action, blocked_pending) is Some <==> blocked_pending),
        action is SendBlocked && blocked_pending ==> queue_step_for(request_id, action, blocked_pending) == Some(
            OpenStep::FireBlocked { request_id },
        ),
{
}

impl DriverState {
    /// The step for the open of `request_id` when its idle queue answered
    /// `action`. A `SendBlocked` marks the open's `blocked` event as fired,
    /// and is a step only the first time.
    pub fn queue_step(&mut self, request_id: u64, action: QueueAction) -> (r: Option<OpenStep>)
        ensures
            ({
                let i = first_open_index(old(self).opens@, request_id);
                let pending = i < old(self).opens@.len() && !old(self).opens@[i].blocked_fired;
                r == queue_step_for(request_id, action, pending)
            }),
            action matches QueueAction::OpenConnection { version } ==> r == Some(
                OpenStep::OpenConnection { request_id, version },
            ),
            action matches QueueAction::FailOpen { error } ==> r == Some(OpenStep::FailOpen { request_id, error }),
            action matches QueueAction::StartUpgrade { old_version, new_version } ==> r == Some(
                OpenStep::StartUpgrade { request_id, old_version, new_version },
            ),
            action is StartDelete ==> r == Some(OpenStep::StartDelete { request_id }),
            action is SendBlocked ==> (r is None || r == Some(OpenStep::FireBlocked { request_id })),
            action is SendBlocked ==> final(self).opens@.len() == old(self).opens@.len()
                && forall|j: int| 0 <= j < old(self).opens@.len() ==> {
                    let o = old(self).opens@[j];
                    let n = #[trigger] final(self).opens@[j];
                    if j == first_open_index(old(self).opens@, request_id) {
                        n == (crate::driver::PendingOpen { blocked_fired: true, ..o })
                    } else {
                        n == o
                    }
                },
            !(action is SendBlocked) ==> final(self).opens@ == old(self).opens@,
            final(self).txns@ == old(self).txns@,
    {
        match action {
            QueueAction::OpenConnection { version } => Some(OpenStep::OpenConnection { request_id, version }),
            QueueAction::FailOpen { error } => Some(OpenStep::FailOpen { request_id, error }),
            QueueAction::SendBlocked => {
                if self.mark_blocked_fired(request_id) {
                    Some(OpenStep::FireBlocked { request_id })
                } else {
                    None
                }
            },
            QueueAction::StartUpgrade { old_version, new_version } => Some(
                OpenStep::StartUpgrade { request_id, old_version, new_version },
            ),
            QueueAction::StartDelete => Some(OpenStep::StartDelete { request_id }),
        }
    }
}

} // verus!
