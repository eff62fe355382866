//! How an unlock proceeds inside the store, one step at a time.
//!
//! An unlock is one unit of work under the lock of its user: it opens a
//! transaction, takes the lock that is keyed by the user, reads the vault,
//! clears the lock of the vault if there is one, and commits. The store
//! gives the user's lock back when the transaction ends, so the lock is
//! given back on every way out: by the commit, or by the rollback that
//! follows whatever goes wrong.

use vstd::prelude::*;
use crate::vault::Vault;

verus! {

/// Where an unlock stands: the action that is under way.
#[derive(Debug, Clone, Copy, PartialEq, Eq, Structural)]
pub enum UnlockStep {
    Beginning,
    /// Taking the lock of the user.
    Acquiring,
    Reading,
    /// Writing the vault as it is once unlocked.
    Writing { vault: Vault },
    Committing,
    RollingBack,
}

/// An unlock under way.
#[derive(Debug, Clone, Copy, PartialEq, Eq, Structural)]
pub struct UnlockUnit {
    pub user_id: u128,
    pub step: UnlockStep,
}

/// What to ask of the store.
#[derive(Debug, Clone, Copy, PartialEq, Eq, Structural)]
pub enum UnlockAction {
    /// Open a transaction.
    Begin,
    /// Take the lock that is keyed by the user, to be held until the
    /// transaction ends; wait for it if another unit of work holds it.
    AcquireUserLock { user_id: u128 },
    /// Read the vault of the user, and the time of the store with it.
    ReadVault { user_id: u128 },
    /// Write the lock time, the lock reason and the time of the last change
    /// of the vault.
    WriteVault { vault: Vault },
    Commit,
    Rollback,
}

/// What the store replied to an action.
#[derive(Debug, Clone, Copy, PartialEq, Eq, Structural)]
pub enum UnlockReply {
    /// The action was carried out and returns nothing.
    Done,
    /// The vault of the user, or nothing if the user has none, and the time
    /// of the store.
    Row(Option<Vault>, i64),
    /// The action failed.
    Failed,
}

/// An unlock after one more reply of the store. It ends with `true` if the
/// unit of work was committed and with `false` if it was not.
#[derive(Debug, Clone, Copy, PartialEq, Eq, Structural)]
pub enum UnlockProgress {
    Continue(UnlockUnit),
    Finished(bool),
}

impl UnlockStep {
    /// An upper bound on the actions that remain from this step on, this
    /// step's own included.
    pub open spec fn rank(self) -> nat {
        match self {
            UnlockStep::Beginning => 6,
            UnlockStep::Acquiring => 5,
            UnlockStep::Reading => 4,
            UnlockStep::Writing { .. } => 3,
            UnlockStep::Committing => 2,
            UnlockStep::RollingBack => 1,
        }
    }
}

impl UnlockAction {
    /// The action ends the transaction, and with it gives the user's lock
    /// back.
    pub open spec fn closes(self) -> bool {
        self is Commit || self is Rollback
    }
}

impl UnlockUnit {
    /// This unlock at another step.
    pub open spec fn at(self, step: UnlockStep) -> UnlockProgress {
        UnlockProgress::Continue(UnlockUnit { user_id: self.user_id, step })
    }

    /// The action that is under way.
    pub open spec fn action_spec(self) -> UnlockAction {
        match self.step {
            UnlockStep::Beginning => UnlockAction::Begin,
            UnlockStep::Acquiring => UnlockAction::AcquireUserLock { user_id: self.user_id },
            UnlockStep::Reading => UnlockAction::ReadVault { user_id: self.user_id },
            UnlockStep::Writing { vault } => UnlockAction::WriteVault { vault },
            UnlockStep::Committing => UnlockAction::Commit,
            UnlockStep::RollingBack => UnlockAction::Rollback,
        }
    }

    /// The unlock after the store replied to the action under way.
    ///
    /// A vault that is locked is written back unlocked; a vault that is not
    /// locked, and a user without a vault, need no writing and the unit of
    /// work is committed as it is. A transaction that cannot be opened ends
    /// the unlock at once; every later failure leads to a rollback.
    pub open spec fn next_spec(self, reply: UnlockReply) -> UnlockProgress {
        match self.step {
            UnlockStep::Beginning => match reply {
                UnlockReply::Done => self.at(UnlockStep::Acquiring),
                _ => UnlockProgress::Finished(false),
            },
            UnlockStep::Acquiring => match reply {
                UnlockReply::Done => self.at(UnlockStep::Reading),
                _ => self.at(UnlockStep::RollingBack),
            },
            UnlockStep::Reading => match reply {
                UnlockReply::Row(Some(vault), now) => if vault.unlocked_spec(now) != vault {
                    self.at(UnlockStep::Writing { vault: vault.unlocked_spec(now) })
                } else {
                    self.at(UnlockStep::Committing)
                },
                UnlockReply::Row(None, _) => self.at(UnlockStep::Committing),
                _ => self.at(UnlockStep::RollingBack),
            },
            UnlockStep::Writing { .. } => match reply {
                UnlockReply::Done => self.at(UnlockStep::Committing),
                _ => self.at(UnlockStep::RollingBack),
            },
            UnlockStep::Committing => match reply {
                UnlockReply::Done => UnlockProgress::Finished(true),
                _ => UnlockProgress::Finished(false),
            },
            UnlockStep::RollingBack => UnlockProgress::Finished(false),
        }
    }

    /// An unlock for `user_id` at its first step.
    pub fn start(user_id: u128) -> (r: UnlockUnit)
        ensures
            r == (UnlockUnit { user_id, step: UnlockStep::Beginning }),
    {
        UnlockUnit { user_id, step: UnlockStep::Beginning }
    }

    /// The action to perform now.
    pub fn action(&self) -> (r: UnlockAction)
        ensures
            r == self.action_spec(),
    {
        match self.step {
            UnlockStep::Beginning => UnlockAction::Begin,
            UnlockStep::Acquiring => UnlockAction::AcquireUserLock { user_id: self.user_id },
            UnlockStep::Reading => UnlockAction::ReadVault { user_id: self.user_id },
            UnlockStep::Writing { vault } => UnlockAction::WriteVault { vault },
            UnlockStep::Committing => UnlockAction::Commit,
            UnlockStep::RollingBack => UnlockAction::Rollback,
        }
    }

    fn with_step(&self, step: UnlockStep) -> (r: UnlockProgress)
        ensures
            r == self.at(step),
    {
        UnlockProgress::Continue(UnlockUnit { user_id: self.user_id, step })
    }

    /// Takes the store's reply to the action under way and says how the
    /// unlock goes on.
    pub fn next(self, reply: UnlockReply) -> (r: UnlockProgress)
        ensures
            r == self.next_spec(reply),
    {
        match self.step {
            UnlockStep::Beginning => match reply {
                UnlockReply::Done => self.with_step(UnlockStep::Acquiring),
                _ => UnlockProgress::Finished(false),
            },
            UnlockStep::Acquiring => match reply {
                UnlockReply::Done => self.with_step(UnlockStep::Reading),
                _ => self.with_step(UnlockStep::RollingBack),
            },
            UnlockStep::Reading => match reply {
                UnlockReply::Row(Some(vault), now) => {
                    let mut after = vault;
                    if after.unlock(now) {
                        self.with_step(UnlockStep::Writing { vault: after })
                    } else {
                        self.with_step(UnlockStep::Committing)
                    }
                },
                UnlockReply::Row(None, _) => self.with_step(UnlockStep::Committing),
                _ => self.with_step(UnlockStep::RollingBack),
            },
            UnlockStep::Writing { .. } => match reply {
                UnlockReply::Done => self.with_step(UnlockStep::Committing),
                _ => self.with_step(UnlockStep::RollingBack),
            },
            UnlockStep::Committing => match reply {
                UnlockReply::Done => UnlockProgress::Finished(true),
                _ => UnlockProgress::Finished(false),
            },
            UnlockStep::RollingBack => UnlockProgress::Finished(false),
        }
    }
}

/// The actions that an unlock performs from `unit` on when the store gives
/// the replies `replies` in turn, and how the unlock ended if the replies
/// reach that far.
pub open spec fn unlock_trace(unit: UnlockUnit, replies: Seq<UnlockReply>) -> (
    Seq<UnlockAction>,
    Option<bool>,
)
    decreases replies.len(),
{
    if replies.len() == 0 {
        (seq![unit.action_spec()], None)
    } else {
        match unit.next_spec(replies[0]) {
            UnlockProgress::Continue(u) => {
                let rest = unlock_trace(u, replies.drop_first());
                (seq![unit.action_spec()] + rest.0, rest.1)
            },
            UnlockProgress::Finished(done) => (seq![unit.action_spec()], Some(done)),
        }
    }
}

/// Every step that follows is nearer to the end and is for the same user;
/// the vault is written only after it was read locked, and what is written
/// is unlocked; the unlock has succeeded only when the store has confirmed
/// the commit.
pub proof fn lemma_unlock_step(unit: UnlockUnit, reply: UnlockReply)
    ensures
        unit.next_spec(reply) matches UnlockProgress::Continue(u) ==> u.step.rank()
            < unit.step.rank() && u.user_id == unit.user_id,
        unit.next_spec(reply) matches UnlockProgress::Continue(u) ==> (
        u.step matches UnlockStep::Writing { vault } ==> {
            &&& unit.step is Reading
            &&& reply matches UnlockReply::Row(Some(before), now)
            &&& before.locked_at is Some || before.lock_reason is Some
            &&& vault == before.unlocked_spec(now)
            &&& vault.locked_at is None
            &&& vault.lock_reason is None
        }),
        unit.next_spec(reply) == UnlockProgress::Finished(true) ==> unit.step is Committing
            && reply is Done,
        unit.next_spec(reply) is Finished ==> unit.step is Beginning || unit.action_spec().closes(),
{
}

/// Whatever the store replies, an unlock asks at most six things of it; and
/// an unlock that has ended after its transaction was opened has ended the
/// transaction as its last action, by a commit or by a rollback, so that
/// the user's lock is never left held.
pub proof fn lemma_user_lock_is_released(unit: UnlockUnit, replies: Seq<UnlockReply>)
    ensures
        1 <= unlock_trace(unit, replies).0.len() <= unit.step.rank(),
        unlock_trace(unit, replies).1 is Some ==> unlock_trace(unit, replies).0.last().closes() || (
        unit.step is Beginning && unlock_trace(unit, replies).0.len() == 1),
    decreases replies.len(),
{
    if replies.len() > 0 {
        lemma_unlock_step(unit, replies[0]);
        match unit.next_spec(replies[0]) {
            UnlockProgress::Continue(u) => {
                lemma_user_lock_is_released(u, replies.drop_first());
                let rest = unlock_trace(u, replies.drop_first());
                assert((seq![unit.action_spec()] + rest.0).last() == rest.0.last());
            },
            UnlockProgress::Finished(_) => {},
        }
    }
}

} // verus!
