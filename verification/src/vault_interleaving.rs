//! Two changes to the lock of one vault at the same time.
//!
//! A lock is one statement: the store carries it out in one go. An unlock
//! is a unit of work of several steps under the lock of its user. The
//! store lets two such jobs proceed in any order, step by step, but for
//! one rule: while an unlock holds the lock of the user, no other job
//! touches the vault of that user. This module models the store as far as
//! the two jobs see it, lets them take their steps in every order that the
//! rule allows, and shows that the outcome is always that of one job after
//! the other.
//!
//! The store of the model does not fail; that every failure of the store
//! leads to a rollback is shown with the unlock itself.

use vstd::prelude::*;
use crate::reason::LockReason;
use crate::unlock_unit::UnlockAction;
use crate::unlock_unit::UnlockProgress;
use crate::unlock_unit::UnlockReply;
use crate::unlock_unit::UnlockStep;
use crate::unlock_unit::UnlockUnit;
use crate::vault::Vault;

verus! {

/// A change to the lock of a vault, under way or done.
pub enum VaultJob {
    /// A lock for `reason`, carried out at `now`; `done` once it has been.
    Lock { reason: LockReason, now: i64, done: bool },
    /// An unlock, which reads the time `now` with the vault.
    Unlock { progress: UnlockProgress, now: i64 },
}

/// The vault after a lock for `reason` at `now`; a user without a vault
/// still has none.
pub open spec fn locked_row(vault: Option<Vault>, reason: LockReason, now: i64) -> Option<Vault> {
    match vault {
        Some(v) => Some(v.locked_spec(reason, now)),
        None => None,
    }
}

/// The vault after an unlock at `now`; a user without a vault still has
/// none.
pub open spec fn unlocked_row(vault: Option<Vault>, now: i64) -> Option<Vault> {
    match vault {
        Some(v) => Some(v.unlocked_spec(now)),
        None => None,
    }
}

/// What the store replies to `action` at the time `now`, the user's vault
/// being `vault`.
pub open spec fn reply_of(vault: Option<Vault>, action: UnlockAction, now: i64) -> UnlockReply {
    match action {
        UnlockAction::ReadVault { .. } => UnlockReply::Row(vault, now),
        _ => UnlockReply::Done,
    }
}

/// The user's vault after `action`.
pub open spec fn apply(vault: Option<Vault>, action: UnlockAction) -> Option<Vault> {
    match action {
        UnlockAction::WriteVault { vault: written } => Some(written),
        _ => vault,
    }
}

impl VaultJob {
    /// The job has nothing left to do.
    pub open spec fn is_done(self) -> bool {
        match self {
            VaultJob::Lock { done, .. } => done,
            VaultJob::Unlock { progress, .. } => progress is Finished,
        }
    }

    /// An upper bound on the steps that the job has left.
    pub open spec fn steps_left(self) -> nat {
        match self {
            VaultJob::Lock { done, .. } => if done {
                0
            } else {
                1
            },
            VaultJob::Unlock { progress, .. } => match progress {
                UnlockProgress::Continue(u) => u.step.rank(),
                UnlockProgress::Finished(_) => 0,
            },
        }
    }

    /// The next step of the job asks for the lock of the user, or is a
    /// statement that needs the vault to itself.
    pub open spec fn wants_lock(self) -> bool {
        match self {
            VaultJob::Lock { done, .. } => !done,
            VaultJob::Unlock { progress, .. } => progress matches UnlockProgress::Continue(u)
                && u.action_spec() is AcquireUserLock,
        }
    }

    /// The next step of the job gives the lock of the user back.
    pub open spec fn gives_back(self) -> bool {
        match self {
            VaultJob::Lock { .. } => false,
            VaultJob::Unlock { progress, .. } => progress matches UnlockProgress::Continue(u)
                && u.action_spec().closes(),
        }
    }

    /// The job has not yet touched the vault nor asked for the lock of the
    /// user.
    pub open spec fn is_early(self) -> bool {
        match self {
            VaultJob::Lock { .. } => true,
            VaultJob::Unlock { progress, .. } => progress matches UnlockProgress::Continue(u)
                ==> u.step is Beginning || u.step is Acquiring,
        }
    }

    /// The job is an unlock that has been given the lock of the user and
    /// has not yet ended its transaction.
    pub open spec fn is_inside(self) -> bool {
        match self {
            VaultJob::Lock { .. } => false,
            VaultJob::Unlock { progress, .. } => progress matches UnlockProgress::Continue(u)
                && !(u.step is Beginning || u.step is Acquiring),
        }
    }

    /// The vault and the job after the next step of the job.
    pub open spec fn step(self, vault: Option<Vault>) -> (Option<Vault>, VaultJob) {
        match self {
            VaultJob::Lock { reason, now, done } => (
                locked_row(vault, reason, now),
                VaultJob::Lock { reason, now, done: true },
            ),
            VaultJob::Unlock { progress, now } => {
                let u = progress->Continue_0;
                let action = u.action_spec();
                (
                    apply(vault, action),
                    VaultJob::Unlock { progress: u.next_spec(reply_of(vault, action, now)), now },
                )
            },
        }
    }

    /// The vault and the job when the job runs to its end with nothing
    /// else going on.
    pub open spec fn finish(self, vault: Option<Vault>) -> (Option<Vault>, VaultJob)
        decreases self.steps_left(),
    {
        if self.is_done() {
            (vault, self)
        } else {
            let next = self.step(vault);
            if next.1.steps_left() < self.steps_left() {
                next.1.finish(next.0)
            } else {
                (vault, self)
            }
        }
    }
}

/// The vault of one user and two jobs on it under way. `holder` says which
/// of the two holds the lock of the user, if either does: `false` stands
/// for the first job and `true` for the second. `first` says which of the
/// two got to the vault first, once one has.
pub struct VaultWorld {
    pub vault: Option<Vault>,
    pub holder: Option<bool>,
    pub first: Option<bool>,
    pub a: VaultJob,
    pub b: VaultJob,
}

impl VaultWorld {
    /// The job that `who` stands for.
    pub open spec fn job(self, who: bool) -> VaultJob {
        if who {
            self.b
        } else {
            self.a
        }
    }

    /// Whether `who` can take its next step: it has one, and if the step
    /// needs the lock of the user, nobody holds it.
    pub open spec fn enabled(self, who: bool) -> bool {
        !self.job(who).is_done() && (self.job(who).wants_lock() ==> self.holder is None)
    }

    /// The world after `who` took its next step.
    pub open spec fn step(self, who: bool) -> VaultWorld {
        let job = self.job(who);
        let next = job.step(self.vault);
        let holder = if job is Unlock && job.wants_lock() {
            Some(who)
        } else if job.gives_back() && self.holder == Some(who) {
            None
        } else {
            self.holder
        };
        let first = if job.wants_lock() && self.first is None {
            Some(who)
        } else {
            self.first
        };
        VaultWorld {
            vault: next.0,
            holder,
            first,
            a: if who {
                self.a
            } else {
                next.1
            },
            b: if who {
                next.1
            } else {
                self.b
            },
        }
    }

    /// The world after the steps of `schedule` were taken in turn, each by
    /// the job it names; nothing if the schedule names a job that cannot
    /// take a step at its turn.
    pub open spec fn run(self, schedule: Seq<bool>) -> Option<VaultWorld>
        decreases schedule.len(),
    {
        if schedule.len() == 0 {
            Some(self)
        } else if self.enabled(schedule[0]) {
            self.step(schedule[0]).run(schedule.drop_first())
        } else {
            None
        }
    }

    /// The vault and the two jobs if from here on `who` runs to its end
    /// before the other job takes another step.
    pub open spec fn serial(self, who: bool) -> (Option<Vault>, VaultJob, VaultJob) {
        let one = self.job(who).finish(self.vault);
        let two = self.job(!who).finish(one.0);
        if who {
            (two.0, two.1, one.1)
        } else {
            (two.0, one.1, two.1)
        }
    }

    /// Both jobs are done, and the vault and the jobs are those of `end`.
    pub open spec fn ended_as(self, end: (Option<Vault>, VaultJob, VaultJob)) -> bool {
        &&& self.a.is_done()
        &&& self.b.is_done()
        &&& self.vault == end.0
        &&& self.a == end.1
        &&& self.b == end.2
    }

    /// What stays true whatever steps are taken: a job that does not hold
    /// the lock of the user has not touched the vault or is done; the job
    /// that holds the lock is an unlock inside its transaction; the job
    /// that got to the vault first holds the lock still or is done; and
    /// running that job to its end, and then the other, leads to the target
    /// of that order. Before either has got to the vault, both orders lead
    /// to their targets.
    pub open spec fn holds_steady(
        self,
        target_a_first: (Option<Vault>, VaultJob, VaultJob),
        target_b_first: (Option<Vault>, VaultJob, VaultJob),
    ) -> bool {
        &&& self.holder != Some(false) ==> self.a.is_early() || self.a.is_done()
        &&& self.holder != Some(true) ==> self.b.is_early() || self.b.is_done()
        &&& self.holder matches Some(who) ==> self.job(who).is_inside() && self.first is Some
        &&& self.first matches Some(who) ==> self.holder == Some(who) || self.job(who).is_done()
        &&& self.first == Some(false) ==> self.serial(false) == target_a_first
        &&& self.first == Some(true) ==> self.serial(true) == target_b_first
        &&& self.first is None ==> self.serial(false) == target_a_first && self.serial(true)
            == target_b_first && self.holder is None
    }
}

/// A lock of the user's vault for `reason`, to be carried out at `now`.
pub open spec fn lock_job(reason: LockReason, now: i64) -> VaultJob {
    VaultJob::Lock { reason, now, done: false }
}

/// An unlock of the vault of `user`, which will read the time `now`.
pub open spec fn unlock_job(user: u128, now: i64) -> VaultJob {
    VaultJob::Unlock {
        progress: UnlockProgress::Continue(UnlockUnit { user_id: user, step: UnlockStep::Beginning }),
        now,
    }
}

/// Two jobs are at their start: each is a lock not yet carried out or an
/// unlock at its first step.
pub open spec fn is_start(job: VaultJob) -> bool {
    match job {
        VaultJob::Lock { done, .. } => !done,
        VaultJob::Unlock { progress, .. } => progress matches UnlockProgress::Continue(u)
            && u.step is Beginning,
    }
}

/// Running a job alone from where it stands is its next step and then
/// running it alone from there.
pub proof fn lemma_finish_unfolds(job: VaultJob, vault: Option<Vault>)
    requires
        !job.is_done(),
    ensures
        job.finish(vault) == job.step(vault).1.finish(job.step(vault).0),
{
    if let VaultJob::Unlock { progress, now } = job {
        let u = progress->Continue_0;
        crate::unlock_unit::lemma_unlock_step(u, reply_of(vault, u.action_spec(), now));
    }
}

/// A step that an unlock takes before it has asked for the lock of the
/// user leads to the same end whatever the vault is: such a step neither
/// reads nor writes the vault.
pub proof fn lemma_early_step_catches_up(job: VaultJob, vault: Option<Vault>, later: Option<Vault>)
    requires
        job.is_early(),
        !job.is_done(),
        !job.wants_lock(),
    ensures
        job.step(vault).0 == vault,
        job.step(vault).1.finish(later) == job.finish(later),
        job.step(vault).1.is_early() || job.step(vault).1.is_done(),
{
    lemma_finish_unfolds(job, later);
}

/// Every step that the rule allows keeps what holds steady.
pub proof fn lemma_step_holds_steady(
    w: VaultWorld,
    who: bool,
    target_a_first: (Option<Vault>, VaultJob, VaultJob),
    target_b_first: (Option<Vault>, VaultJob, VaultJob),
)
    requires
        w.holds_steady(target_a_first, target_b_first),
        w.enabled(who),
    ensures
        w.step(who).holds_steady(target_a_first, target_b_first),
{
    let job = w.job(who);
    let other = w.job(!who);
    let w2 = w.step(who);
    lemma_finish_unfolds(job, w.vault);
    if let VaultJob::Unlock { progress, now } = job {
        let u = progress->Continue_0;
        crate::unlock_unit::lemma_unlock_step(u, reply_of(w.vault, u.action_spec(), now));
    }
    assert(w2.serial(who) == w.serial(who));
    if w.holder == Some(who) || job.wants_lock() {
        if w.first == Some(!who) {
            assert(other.is_done());
            assert(w2.serial(!who) == w.serial(!who));
        }
    } else {
        let later = other.finish(w.vault).0;
        lemma_early_step_catches_up(job, w.vault, later);
        assert(w2.serial(!who) == w.serial(!who));
    }
}

/// What holds steady holds of the world at the end of every schedule that
/// the rule allows.
pub proof fn lemma_run_holds_steady(
    w: VaultWorld,
    schedule: Seq<bool>,
    target_a_first: (Option<Vault>, VaultJob, VaultJob),
    target_b_first: (Option<Vault>, VaultJob, VaultJob),
)
    requires
        w.holds_steady(target_a_first, target_b_first),
        w.run(schedule) is Some,
    ensures
        w.run(schedule)->0.holds_steady(target_a_first, target_b_first),
    decreases schedule.len(),
{
    if schedule.len() > 0 {
        lemma_step_holds_steady(w, schedule[0], target_a_first, target_b_first);
        lemma_run_holds_steady(
            w.step(schedule[0]),
            schedule.drop_first(),
            target_a_first,
            target_b_first,
        );
    }
}

/// A job that runs alone from its start leaves the vault locked for its
/// reason, if it is a lock, and unlocked, if it is an unlock; a user
/// without a vault still has none. Whatever the vault was before, it then
/// has a time of locking exactly when it has a reason.
pub proof fn lemma_finish_is_the_change(job: VaultJob, vault: Option<Vault>)
    requires
        is_start(job),
    ensures
        job.finish(vault).1.is_done(),
        job matches VaultJob::Lock { reason, now, .. } ==> job.finish(vault).0 == locked_row(
            vault,
            reason,
            now,
        ),
        job matches VaultJob::Unlock { now, .. } ==> job.finish(vault).0 == unlocked_row(vault, now)
            && job.finish(vault).1 == (VaultJob::Unlock {
            progress: UnlockProgress::Finished(true),
            now,
        }),
        job.finish(vault).0 matches Some(v) ==> v.wf(),
{
    reveal_with_fuel(VaultJob::finish, 7);
}

/// Two jobs on the vault of one user, started at the same time and run to
/// their ends in any order of steps that the rule of the user's lock
/// allows, end as if one of them had run from its first step to its last
/// before the other took its first. The vault is then as the job that came
/// second in that order leaves it: locked for the reason of that job, or
/// unlocked; it never has a time of locking without a reason, nor a reason
/// without a time.
pub proof fn lemma_vault_jobs_are_serial(
    vault: Option<Vault>,
    a: VaultJob,
    b: VaultJob,
    schedule: Seq<bool>,
)
    requires
        is_start(a),
        is_start(b),
        (VaultWorld { vault, holder: None, first: None, a, b }).run(schedule) matches Some(w)
            && w.a.is_done() && w.b.is_done(),
    ensures
        ({
            let w0 = VaultWorld { vault, holder: None, first: None, a, b };
            let end = w0.run(schedule)->0;
            &&& end.ended_as(w0.serial(false)) || end.ended_as(w0.serial(true))
            &&& end.vault == b.finish(a.finish(vault).0).0 || end.vault == a.finish(
                b.finish(vault).0,
            ).0
            &&& end.vault matches Some(v) ==> v.wf()
        }),
{
    let w0 = VaultWorld { vault, holder: None, first: None, a, b };
    assert(w0.holds_steady(w0.serial(false), w0.serial(true)));
    lemma_run_holds_steady(w0, schedule, w0.serial(false), w0.serial(true));
    let end = w0.run(schedule)->0;
    assert(end.serial(false) == (end.vault, end.a, end.b));
    assert(end.serial(true) == (end.vault, end.a, end.b));
    lemma_finish_is_the_change(a, vault);
    lemma_finish_is_the_change(b, vault);
    lemma_finish_is_the_change(b, a.finish(vault).0);
    lemma_finish_is_the_change(a, b.finish(vault).0);
}

/// As long as a job is under way, one of the two can take a step: nobody
/// waits for a lock that is never given back.
pub proof fn lemma_some_job_can_step(
    w: VaultWorld,
    target_a_first: (Option<Vault>, VaultJob, VaultJob),
    target_b_first: (Option<Vault>, VaultJob, VaultJob),
)
    requires
        w.holds_steady(target_a_first, target_b_first),
        !w.a.is_done() || !w.b.is_done(),
    ensures
        w.enabled(false) || w.enabled(true),
{
}

} // verus!
