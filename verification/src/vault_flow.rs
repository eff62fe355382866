//! How a vault request proceeds against the store, one step at a time.
//!
//! A request is a short conversation with the store. This module decides
//! what to ask next and how to answer the caller; the code that talks to
//! the store performs each action and hands back what the store replied.

use vstd::prelude::*;
use crate::error::AppError;
use crate::named::unknown_message;
use crate::reason::reason_named;
use crate::reason::LockReason;
use crate::vault::LockVaultRequest;
use crate::vault::VaultLockState;
use crate::vault_repo::StoreError;

verus! {

/// What the caller asked for.
#[derive(Debug, Clone, Copy, PartialEq, Eq, Structural)]
pub enum VaultOp {
    GetState,
    Lock(LockReason),
    Unlock,
}

/// Where a request stands: the action that is under way.
#[derive(Debug, Clone, Copy, PartialEq, Eq, Structural)]
pub enum VaultStep {
    /// Providing the vault before anything else.
    Ensuring,
    /// The first attempt to lock.
    Locking,
    /// Providing the vault once more, after the lock found no row.
    EnsuringAgain,
    /// The second and last attempt to lock.
    LockingAgain,
    Unlocking,
    /// Reading the lock state that was asked for.
    Reading,
}

/// What to ask of the store.
#[derive(Debug, Clone, Copy, PartialEq, Eq, Structural)]
pub enum VaultAction {
    EnsureVault,
    LockVault(LockReason),
    UnlockVault,
    ReadState,
}

/// How a request ended.
#[derive(Debug, Clone, Copy, PartialEq, Eq, Structural)]
pub enum VaultOutcome {
    /// The lock state that was asked for.
    State(VaultLockState),
    /// The vault is locked.
    Locked,
    /// The vault is unlocked.
    Unlocked,
    /// The user has no vault.
    VaultNotFound,
    /// The store failed while the state was fetched.
    FetchStateFailed,
    /// The store failed while the vault was locked, or found no row twice.
    LockFailed,
    /// The store failed while the vault was provided for an unlock.
    FetchVaultFailed,
    /// The store failed while the vault was unlocked.
    UnlockFailed,
}

/// A request under way.
#[derive(Debug, Clone, Copy, PartialEq, Eq, Structural)]
pub struct VaultFlow {
    pub op: VaultOp,
    pub step: VaultStep,
}

/// A request after one more reply of the store.
#[derive(Debug, Clone, Copy, PartialEq, Eq, Structural)]
pub enum VaultProgress {
    Continue(VaultFlow),
    Finished(VaultOutcome),
}

/// What the caller is told when the reason text `reason` is refused: that
/// a reason is wanted, if the text is empty; else that the text is no lock
/// reason, with the text itself.
pub open spec fn refusal_text(reason: Seq<char>) -> Seq<char> {
    if reason.len() == 0 {
        "Lock reason cannot be empty"@
    } else {
        unknown_message("LockReason"@, reason)
    }
}

/// The outcome of a request that is found at a step that its operation
/// does not have: the request ends as failed.
pub open spec fn failure_of(op: VaultOp) -> VaultOutcome {
    match op {
        VaultOp::GetState => VaultOutcome::FetchStateFailed,
        VaultOp::Lock(_) => VaultOutcome::LockFailed,
        VaultOp::Unlock => VaultOutcome::UnlockFailed,
    }
}

impl VaultStep {
    /// An upper bound on the actions that remain from this step on, this
    /// step's own included.
    pub open spec fn rank(self) -> nat {
        match self {
            VaultStep::Ensuring => 4,
            VaultStep::Locking => 3,
            VaultStep::Unlocking => 3,
            VaultStep::EnsuringAgain => 2,
            VaultStep::LockingAgain => 1,
            VaultStep::Reading => 1,
        }
    }

    /// An upper bound on the lock attempts that remain from this step on.
    pub open spec fn lock_budget(self) -> nat {
        match self {
            VaultStep::Ensuring => 2,
            VaultStep::Locking => 2,
            VaultStep::EnsuringAgain => 1,
            VaultStep::LockingAgain => 1,
            VaultStep::Unlocking => 0,
            VaultStep::Reading => 0,
        }
    }
}

impl VaultFlow {
    /// The action that is under way.
    pub open spec fn action_spec(self) -> VaultAction {
        match self.step {
            VaultStep::Ensuring => VaultAction::EnsureVault,
            VaultStep::EnsuringAgain => VaultAction::EnsureVault,
            VaultStep::Locking | VaultStep::LockingAgain => match self.op {
                VaultOp::Lock(r) => VaultAction::LockVault(r),
                _ => VaultAction::ReadState,
            },
            VaultStep::Unlocking => match self.op {
                VaultOp::Unlock => VaultAction::UnlockVault,
                _ => VaultAction::ReadState,
            },
            VaultStep::Reading => VaultAction::ReadState,
        }
    }

    /// The request after the store replied to the action under way.
    ///
    /// A lock that finds no row provides the vault again and tries once
    /// more; a second failure of whatever kind ends the request. Every other
    /// failure of the store ends the request at once. An unlock has ended,
    /// with the vault unlocked, as soon as the store has carried it out.
    pub open spec fn next_spec(self, reply: Result<Option<VaultLockState>, StoreError>) -> VaultProgress {
        match (self.op, self.step) {
            (VaultOp::GetState, VaultStep::Ensuring) => match reply {
                Ok(_) => VaultProgress::Continue(VaultFlow { op: self.op, step: VaultStep::Reading }),
                Err(_) => VaultProgress::Finished(VaultOutcome::FetchStateFailed),
            },
            (VaultOp::GetState, VaultStep::Reading) => match reply {
                Ok(Some(s)) => VaultProgress::Finished(VaultOutcome::State(s)),
                Ok(None) => VaultProgress::Finished(VaultOutcome::VaultNotFound),
                Err(_) => VaultProgress::Finished(VaultOutcome::FetchStateFailed),
            },
            (VaultOp::Lock(_), VaultStep::Ensuring) => match reply {
                Ok(_) => VaultProgress::Continue(VaultFlow { op: self.op, step: VaultStep::Locking }),
                Err(_) => VaultProgress::Finished(VaultOutcome::LockFailed),
            },
            (VaultOp::Lock(_), VaultStep::Locking) => match reply {
                Ok(_) => VaultProgress::Finished(VaultOutcome::Locked),
                Err(StoreError::RowNotFound) => VaultProgress::Continue(
                    VaultFlow { op: self.op, step: VaultStep::EnsuringAgain },
                ),
                Err(StoreError::Other) => VaultProgress::Finished(VaultOutcome::LockFailed),
            },
            (VaultOp::Lock(_), VaultStep::EnsuringAgain) => match reply {
                Ok(_) => VaultProgress::Continue(
                    VaultFlow { op: self.op, step: VaultStep::LockingAgain },
                ),
                Err(_) => VaultProgress::Finished(VaultOutcome::LockFailed),
            },
            (VaultOp::Lock(_), VaultStep::LockingAgain) => match reply {
                Ok(_) => VaultProgress::Finished(VaultOutcome::Locked),
                Err(_) => VaultProgress::Finished(VaultOutcome::LockFailed),
            },
            (VaultOp::Unlock, VaultStep::Ensuring) => match reply {
                Ok(_) => VaultProgress::Continue(
                    VaultFlow { op: self.op, step: VaultStep::Unlocking },
                ),
                Err(_) => VaultProgress::Finished(VaultOutcome::FetchVaultFailed),
            },
            (VaultOp::Unlock, VaultStep::Unlocking) => match reply {
                Ok(_) => VaultProgress::Finished(VaultOutcome::Unlocked),
                Err(_) => VaultProgress::Finished(VaultOutcome::UnlockFailed),
            },
            _ => VaultProgress::Finished(failure_of(self.op)),
        }
    }

    /// A request for `op` at its first step.
    pub fn start(op: VaultOp) -> (r: VaultFlow)
        ensures
            r == (VaultFlow { op, step: VaultStep::Ensuring }),
    {
        VaultFlow { op, step: VaultStep::Ensuring }
    }

    /// Begins a lock request. A reason that is none of the six is refused
    /// before anything is asked of the store, as a bad request whose
    /// message repeats the text that was refused.
    pub fn begin_lock(req: &LockVaultRequest) -> (r: Result<VaultFlow, AppError>)
        ensures
            r is Ok <==> reason_named(req.reason@) is Some,
            r matches Ok(flow) ==> flow == (VaultFlow {
                op: VaultOp::Lock(reason_named(req.reason@)->0),
                step: VaultStep::Ensuring,
            }),
            r matches Err(e) ==> (e matches AppError::BadRequest(m) && m@ == refusal_text(
                req.reason@,
            )),
    {
        proof {
            // None of the six names is empty.
            reveal_strlit("idle");
            reveal_strlit("backgrounded");
            reveal_strlit("logout");
            reveal_strlit("force");
            reveal_strlit("rotation");
            reveal_strlit("admin");
        }
        if req.reason.as_str().unicode_len() == 0 {
            return Err(AppError::bad_request("Lock reason cannot be empty"));
        }
        match LockReason::from_str(req.reason.as_str()) {
            Ok(reason) => Ok(VaultFlow::start(VaultOp::Lock(reason))),
            Err(message) => Err(AppError::BadRequest(message)),
        }
    }

    /// The action to perform now.
    pub fn action(&self) -> (r: VaultAction)
        ensures
            r == self.action_spec(),
    {
        match self.step {
            VaultStep::Ensuring => VaultAction::EnsureVault,
            VaultStep::EnsuringAgain => VaultAction::EnsureVault,
            VaultStep::Locking | VaultStep::LockingAgain => match self.op {
                VaultOp::Lock(r) => VaultAction::LockVault(r),
                _ => VaultAction::ReadState,
            },
            VaultStep::Unlocking => match self.op {
                VaultOp::Unlock => VaultAction::UnlockVault,
                _ => VaultAction::ReadState,
            },
            VaultStep::Reading => VaultAction::ReadState,
        }
    }

    /// Takes the store's reply to the action under way and says how the
    /// request goes on. A reply to an action that returns no state carries
    /// `Ok(None)`.
    pub fn next(self, reply: Result<Option<VaultLockState>, StoreError>) -> (r: VaultProgress)
        ensures
            r == self.next_spec(reply),
    {
        let op = self.op;
        match (self.op, self.step) {
            (VaultOp::GetState, VaultStep::Ensuring) => match reply {
                Ok(_) => VaultProgress::Continue(VaultFlow { op, step: VaultStep::Reading }),
                Err(_) => VaultProgress::Finished(VaultOutcome::FetchStateFailed),
            },
            (VaultOp::GetState, VaultStep::Reading) => match reply {
                Ok(Some(s)) => VaultProgress::Finished(VaultOutcome::State(s)),
                Ok(None) => VaultProgress::Finished(VaultOutcome::VaultNotFound),
                Err(_) => VaultProgress::Finished(VaultOutcome::FetchStateFailed),
            },
            (VaultOp::Lock(_), VaultStep::Ensuring) => match reply {
                Ok(_) => VaultProgress::Continue(VaultFlow { op, step: VaultStep::Locking }),
                Err(_) => VaultProgress::Finished(VaultOutcome::LockFailed),
            },
            (VaultOp::Lock(_), VaultStep::Locking) => match reply {
                Ok(_) => VaultProgress::Finished(VaultOutcome::Locked),
                Err(StoreError::RowNotFound) => VaultProgress::Continue(
                    VaultFlow { op, step: VaultStep::EnsuringAgain },
                ),
                Err(StoreError::Other) => VaultProgress::Finished(VaultOutcome::LockFailed),
            },
            (VaultOp::Lock(_), VaultStep::EnsuringAgain) => match reply {
                Ok(_) => VaultProgress::Continue(VaultFlow { op, step: VaultStep::LockingAgain }),
                Err(_) => VaultProgress::Finished(VaultOutcome::LockFailed),
            },
            (VaultOp::Lock(_), VaultStep::LockingAgain) => match reply {
                Ok(_) => VaultProgress::Finished(VaultOutcome::Locked),
                Err(_) => VaultProgress::Finished(VaultOutcome::LockFailed),
            },
            (VaultOp::Unlock, VaultStep::Ensuring) => match reply {
                Ok(_) => VaultProgress::Continue(VaultFlow { op, step: VaultStep::Unlocking }),
                Err(_) => VaultProgress::Finished(VaultOutcome::FetchVaultFailed),
            },
            (VaultOp::Unlock, VaultStep::Unlocking) => match reply {
                Ok(_) => VaultProgress::Finished(VaultOutcome::Unlocked),
                Err(_) => VaultProgress::Finished(VaultOutcome::UnlockFailed),
            },
            _ => match op {
                VaultOp::GetState => VaultProgress::Finished(VaultOutcome::FetchStateFailed),
                VaultOp::Lock(_) => VaultProgress::Finished(VaultOutcome::LockFailed),
                VaultOp::Unlock => VaultProgress::Finished(VaultOutcome::UnlockFailed),
            },
        }
    }
}

/// The actions that a request performs from `flow` on when the store gives
/// the replies `replies` in turn, as far as the replies reach.
pub open spec fn actions_of(flow: VaultFlow, replies: Seq<Result<Option<VaultLockState>, StoreError>>) -> Seq<
    VaultAction,
>
    decreases replies.len(),
{
    if replies.len() == 0 {
        seq![flow.action_spec()]
    } else {
        match flow.next_spec(replies[0]) {
            VaultProgress::Continue(f) => seq![flow.action_spec()] + actions_of(
                f,
                replies.drop_first(),
            ),
            VaultProgress::Finished(_) => seq![flow.action_spec()],
        }
    }
}

/// How many of `actions` are lock attempts.
pub open spec fn lock_attempts(actions: Seq<VaultAction>) -> nat
    decreases actions.len(),
{
    if actions.len() == 0 {
        0
    } else {
        lock_attempts(actions.drop_first()) + if actions.first() is LockVault {
            1nat
        } else {
            0nat
        }
    }
}

/// Every step that follows is nearer to the end: a request cannot go round
/// in circles.
pub proof fn lemma_next_descends(flow: VaultFlow, reply: Result<Option<VaultLockState>, StoreError>)
    ensures
        flow.next_spec(reply) matches VaultProgress::Continue(f) ==> {
            &&& f.op == flow.op
            &&& f.step.rank() < flow.step.rank()
            &&& f.step.lock_budget() + (if flow.action_spec() is LockVault {
                1nat
            } else {
                0nat
            }) <= flow.step.lock_budget()
        },
{
}

/// Whatever the store replies, a request asks at most four things of it,
/// and a lock request attempts the lock at most twice.
pub proof fn lemma_retry_is_bounded(
    flow: VaultFlow,
    replies: Seq<Result<Option<VaultLockState>, StoreError>>,
)
    ensures
        1 <= actions_of(flow, replies).len() <= flow.step.rank(),
        lock_attempts(actions_of(flow, replies)) <= flow.step.lock_budget(),
        actions_of(VaultFlow { op: flow.op, step: VaultStep::Ensuring }, replies).len() <= 4,
        lock_attempts(actions_of(VaultFlow { op: flow.op, step: VaultStep::Ensuring }, replies))
            <= 2,
    decreases replies.len(),
{
    lemma_bounded_from(flow, replies);
    lemma_bounded_from(VaultFlow { op: flow.op, step: VaultStep::Ensuring }, replies);
}

proof fn lemma_bounded_from(
    flow: VaultFlow,
    replies: Seq<Result<Option<VaultLockState>, StoreError>>,
)
    ensures
        1 <= actions_of(flow, replies).len() <= flow.step.rank(),
        lock_attempts(actions_of(flow, replies)) <= flow.step.lock_budget(),
    decreases replies.len(),
{
    let first = seq![flow.action_spec()];
    assert(first.drop_first() =~= Seq::<VaultAction>::empty());
    assert(lock_attempts(first.drop_first()) == 0);
    if replies.len() > 0 {
        lemma_next_descends(flow, replies[0]);
        match flow.next_spec(replies[0]) {
            VaultProgress::Continue(f) => {
                lemma_bounded_from(f, replies.drop_first());
                let rest = actions_of(f, replies.drop_first());
                assert((first + rest).drop_first() =~= rest);
                assert((first + rest).first() == flow.action_spec());
            },
            VaultProgress::Finished(_) => {},
        }
    }
}

} // verus!
