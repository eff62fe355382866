//! Any number of changes to the lock of one vault at the same time.
//!
//! The store and its rule are those of two jobs at a time: while an unlock
//! holds the lock of the user, no other job touches the vault of that
//! user. Here any number of jobs take their steps in every order that the
//! rule allows, and the outcome is shown to be that of the jobs running one
//! after the other in some order that names each job once. The vault is
//! then as the last job of that order leaves it.

use vstd::prelude::*;
use crate::vault::Vault;
use crate::vault::VaultLockState;
use crate::vault_interleaving::is_start;
use crate::vault_interleaving::lemma_early_step_catches_up;
use crate::vault_interleaving::lemma_finish_is_the_change;
use crate::vault_interleaving::lemma_finish_unfolds;
use crate::vault_interleaving::VaultJob;

verus! {

/// The vault of one user and any number of jobs on it under way. `holder`
/// says which of them holds the lock of the user, if any does.
pub struct VaultCrowd {
    pub vault: Option<Vault>,
    pub holder: Option<int>,
    pub jobs: Seq<VaultJob>,
}

/// The lock state that a job leaves behind.
pub open spec fn effect_of(job: VaultJob) -> VaultLockState {
    match job {
        VaultJob::Lock { reason, now, .. } => VaultLockState {
            locked_at: Some(now),
            lock_reason: Some(reason),
        },
        VaultJob::Unlock { .. } => VaultLockState { locked_at: None, lock_reason: None },
    }
}

impl VaultCrowd {
    /// `who` is one of the jobs.
    pub open spec fn has(self, who: int) -> bool {
        0 <= who < self.jobs.len()
    }

    /// Whether `who` can take its next step: it has one, and if the step
    /// needs the lock of the user, nobody holds it.
    pub open spec fn enabled(self, who: int) -> bool {
        &&& self.has(who)
        &&& !self.jobs[who].is_done()
        &&& self.jobs[who].wants_lock() ==> self.holder is None
    }

    /// The crowd after `who` took its next step.
    pub open spec fn step(self, who: int) -> VaultCrowd {
        let job = self.jobs[who];
        let next = job.step(self.vault);
        VaultCrowd {
            vault: next.0,
            holder: if job is Unlock && job.wants_lock() {
                Some(who)
            } else if job.gives_back() && self.holder == Some(who) {
                None
            } else {
                self.holder
            },
            jobs: self.jobs.update(who, next.1),
        }
    }

    /// The crowd after the steps of `schedule` were taken in turn, each by
    /// the job it names; nothing if the schedule names a job that cannot
    /// take a step at its turn.
    pub open spec fn run(self, schedule: Seq<int>) -> Option<VaultCrowd>
        decreases schedule.len(),
    {
        if schedule.len() == 0 {
            Some(self)
        } else if self.enabled(schedule[0]) {
            self.step(schedule[0]).run(schedule.drop_first())
        } else {
            None
        }
    }

    /// Every job is done.
    pub open spec fn all_done(self) -> bool {
        forall|u: int| self.has(u) ==> (#[trigger] self.jobs[u]).is_done()
    }

    /// The crowd after the job `u` ran to its end with nothing else going
    /// on.
    pub open spec fn finish_unit(self, u: int) -> VaultCrowd {
        if self.has(u) {
            let end = self.jobs[u].finish(self.vault);
            VaultCrowd {
                vault: end.0,
                holder: if self.holder == Some(u) {
                    None
                } else {
                    self.holder
                },
                jobs: self.jobs.update(u, end.1),
            }
        } else {
            self
        }
    }

    /// The crowd after the jobs that `order` names ran one after the other,
    /// each from where it stands to its end.
    pub open spec fn serial(self, order: Seq<int>) -> VaultCrowd
        decreases order.len(),
    {
        if order.len() == 0 {
            self
        } else {
            self.finish_unit(order[0]).serial(order.drop_first())
        }
    }

    /// The vault and the jobs are those of `end`.
    pub open spec fn same_end(self, end: VaultCrowd) -> bool {
        self.vault == end.vault && self.jobs == end.jobs
    }

    /// `order` names every job that is not done, each once, and no other;
    /// and if a job holds the lock of the user, `order` begins with it.
    pub open spec fn is_order(self, order: Seq<int>) -> bool {
        &&& order.no_duplicates()
        &&& forall|k: int|
            0 <= k < order.len() ==> self.has(#[trigger] order[k]) && !self.jobs[order[k]].is_done()
        &&& forall|u: int| self.has(u) && !(#[trigger] self.jobs[u]).is_done() ==> order.contains(u)
        &&& self.holder matches Some(h) ==> order.len() > 0 && order[0] == h
    }

    /// A job that does not hold the lock of the user has not touched the
    /// vault or is done, and the job that holds the lock is an unlock
    /// inside its transaction.
    pub open spec fn steady(self) -> bool {
        &&& forall|u: int|
            self.has(u) && self.holder != Some(u) ==> (#[trigger] self.jobs[u]).is_early()
                || self.jobs[u].is_done()
        &&& self.holder matches Some(h) ==> self.has(h) && self.jobs[h].is_inside()
    }

    /// In `ahead` the job `who`, which does not hold the lock of the user
    /// and is not about to ask for it, has taken one step more than here;
    /// nothing else differs.
    pub open spec fn is_behind(self, ahead: VaultCrowd, who: int) -> bool {
        &&& self.has(who)
        &&& self.holder != Some(who)
        &&& self.jobs[who].is_early()
        &&& !self.jobs[who].is_done()
        &&& !self.jobs[who].wants_lock()
        &&& ahead.vault == self.vault
        &&& ahead.holder == self.holder
        &&& ahead.jobs == self.jobs.update(who, self.jobs[who].step(self.vault).1)
    }
}

/// Every step that the rule allows keeps the crowd steady.
pub proof fn lemma_crowd_step_steady(w: VaultCrowd, who: int)
    requires
        w.steady(),
        w.enabled(who),
    ensures
        w.step(who).steady(),
{
    let w2 = w.step(who);
    let job = w.jobs[who];
    if let VaultJob::Unlock { progress, now } = job {
        let u = progress->Continue_0;
        crate::unlock_unit::lemma_unlock_step(
            u,
            crate::vault_interleaving::reply_of(w.vault, u.action_spec(), now),
        );
    }
    assert forall|u: int| w2.has(u) && w2.holder != Some(u) implies (#[trigger] w2.jobs[u]).is_early()
        || w2.jobs[u].is_done() by {
        if u != who {
            assert(w2.jobs[u] == w.jobs[u]);
        }
    }
}

/// A step that an unlock takes before it asks for the lock of the user
/// makes no difference to a run in which the jobs run one after the other.
pub proof fn lemma_early_step_commutes(x: VaultCrowd, y: VaultCrowd, who: int, order: Seq<int>)
    requires
        x.is_behind(y, who),
        order.contains(who),
    ensures
        x.serial(order) == y.serial(order),
    decreases order.len(),
{
    let job = x.jobs[who];
    let u = order[0];
    let x1 = x.finish_unit(u);
    let y1 = y.finish_unit(u);
    if u == who {
        lemma_early_step_catches_up(job, x.vault, x.vault);
        assert(x1.jobs =~= y1.jobs);
        assert(x1 == y1);
    } else {
        if x.has(u) {
            assert(y.jobs[u] == x.jobs[u]);
            assert(job.step(x1.vault).1 == job.step(x.vault).1);
            assert(y1.jobs =~= x1.jobs.update(who, job.step(x1.vault).1));
        }
        assert(x1.is_behind(y1, who));
        let k = choose|k: int| 0 <= k < order.len() && order[k] == who;
        assert(order.drop_first()[k - 1] == who);
        lemma_early_step_commutes(x1, y1, who, order.drop_first());
    }
}

/// A step of one job followed by a run of the jobs one after the other
/// ends as a run of the jobs one after the other alone.
pub proof fn lemma_step_is_absorbed(w: VaultCrowd, who: int, order: Seq<int>, end: VaultCrowd) -> (earlier:
    Seq<int>)
    requires
        w.steady(),
        w.enabled(who),
        w.step(who).is_order(order),
        w.step(who).serial(order).same_end(end),
    ensures
        w.is_order(earlier),
        w.serial(earlier).same_end(end),
{
    let job = w.jobs[who];
    let w2 = w.step(who);
    lemma_crowd_step_steady(w, who);
    lemma_finish_unfolds(job, w.vault);
    if let VaultJob::Unlock { progress, now } = job {
        let u = progress->Continue_0;
        crate::unlock_unit::lemma_unlock_step(
            u,
            crate::vault_interleaving::reply_of(w.vault, u.action_spec(), now),
        );
    }
    assert forall|u: int| w.has(u) && u != who implies w2.jobs[u] == w.jobs[u] by {}
    if w2.holder == Some(who) {
        // The job holds the lock after its step: it runs first.
        assert(order[0] == who);
        assert(w.finish_unit(who).jobs =~= w2.finish_unit(who).jobs);
        assert(w.finish_unit(who) == w2.finish_unit(who));
        assert forall|u: int| w.has(u) && !(#[trigger] w.jobs[u]).is_done() implies order.contains(
            u,
        ) by {
            if u != who {
                assert(!w2.jobs[u].is_done());
            }
        }
        order
    } else if w.holder == Some(who) || job is Lock {
        // The job is done with this step: a lock in one go, or an unlock
        // that has ended its transaction.
        let earlier = seq![who] + order;
        assert(earlier.drop_first() =~= order);
        assert(w2.jobs[who].is_done());
        assert(w.finish_unit(who).jobs =~= w2.jobs);
        assert(w.finish_unit(who) == w2);
        assert forall|i: int, j: int|
            0 <= i < earlier.len() && 0 <= j < earlier.len() && i != j implies earlier[i]
            != earlier[j] by {
            if i > 0 && j > 0 {
                assert(order[i - 1] != order[j - 1]);
            } else if i > 0 {
                assert(!w2.jobs[order[i - 1]].is_done());
            } else {
                assert(!w2.jobs[order[j - 1]].is_done());
            }
        }
        assert forall|k: int| 0 <= k < earlier.len() implies w.has(#[trigger] earlier[k])
            && !w.jobs[earlier[k]].is_done() by {
            if k > 0 {
                assert(earlier[k] == order[k - 1]);
                assert(!w2.jobs[order[k - 1]].is_done());
            }
        }
        assert forall|u: int| w.has(u) && !(#[trigger] w.jobs[u]).is_done() implies earlier.contains(
            u,
        ) by {
            if u != who {
                assert(!w2.jobs[u].is_done());
                let k = choose|k: int| 0 <= k < order.len() && order[k] == u;
                assert(earlier[k + 1] == u);
            } else {
                assert(earlier[0] == who);
            }
        }
        earlier
    } else {
        // A step before the lock is asked for: the job may as well take
        // it when its turn comes.
        assert(w.is_behind(w2, who));
        assert(!w2.jobs[who].is_done());
        assert(order.contains(who));
        lemma_early_step_commutes(w, w2, who, order);
        assert forall|u: int| w.has(u) && !(#[trigger] w.jobs[u]).is_done() implies order.contains(
            u,
        ) by {
            if u != who {
                assert(!w2.jobs[u].is_done());
            }
        }
        order
    }
}

/// The jobs of a steady crowd that run to their ends in any order of steps
/// that the rule allows end as they would running one after the other in
/// the order that is returned, which names every job that was not done,
/// each once.
pub proof fn lemma_crowd_is_serial(w: VaultCrowd, schedule: Seq<int>) -> (order: Seq<int>)
    requires
        w.steady(),
        w.run(schedule) matches Some(end) && end.all_done(),
    ensures
        w.is_order(order),
        w.serial(order).same_end(w.run(schedule)->0),
    decreases schedule.len(),
{
    if schedule.len() == 0 {
        Seq::empty()
    } else {
        let who = schedule[0];
        lemma_crowd_step_steady(w, who);
        let later = lemma_crowd_is_serial(w.step(who), schedule.drop_first());
        lemma_step_is_absorbed(w, who, later, w.run(schedule)->0)
    }
}

/// Jobs at their start that run one after the other, each once, leave the
/// vault as the last of them leaves it, and after each of them the vault
/// has a time of locking exactly when it has a reason.
pub proof fn lemma_serial_ends_as_last(w: VaultCrowd, order: Seq<int>)
    requires
        order.no_duplicates(),
        forall|k: int| 0 <= k < order.len() ==> w.has(#[trigger] order[k]) && is_start(w.jobs[order[k]]),
        w.vault matches Some(v) ==> v.wf(),
    ensures
        w.vault is Some <==> w.serial(order).vault is Some,
        w.serial(order).vault matches Some(v) ==> v.wf(),
        order.len() == 0 ==> w.serial(order).vault == w.vault,
        w.vault is Some && order.len() > 0 ==> w.serial(order).vault->0.lock_state() == effect_of(
            w.jobs[order.last()],
        ),
    decreases order.len(),
{
    if order.len() > 0 {
        let u = order[0];
        let w1 = w.finish_unit(u);
        let rest = order.drop_first();
        lemma_finish_is_the_change(w.jobs[u], w.vault);
        assert forall|k: int| 0 <= k < rest.len() implies w1.has(#[trigger] rest[k]) && is_start(
            w1.jobs[rest[k]],
        ) by {
            assert(rest[k] == order[k + 1]);
            assert(order[k + 1] != order[0]);
        }
        assert forall|i: int, j: int|
            0 <= i < rest.len() && 0 <= j < rest.len() && i != j implies rest[i] != rest[j] by {
            assert(order[i + 1] != order[j + 1]);
        }
        lemma_serial_ends_as_last(w1, rest);
        if rest.len() > 0 {
            assert(rest.last() == order.last());
            assert(order.last() != u);
        }
    }
}

/// Any number of jobs on the vault of one user, started at the same time
/// and run to their ends in any order of steps that the rule of the user's
/// lock allows, end as if they had run one after the other in some order
/// that names each job once. The vault is then as the last job of that
/// order leaves it: locked for the reason of that job, or unlocked. It
/// never has a time of locking without a reason, nor a reason without a
/// time.
pub proof fn lemma_many_jobs_are_serial(w: VaultCrowd, schedule: Seq<int>) -> (order: Seq<int>)
    requires
        w.holder is None,
        forall|u: int| w.has(u) ==> is_start(#[trigger] w.jobs[u]),
        w.vault matches Some(v) ==> v.wf(),
        w.run(schedule) matches Some(end) && end.all_done(),
    ensures
        order.no_duplicates(),
        forall|u: int| w.has(u) <==> order.contains(u),
        w.serial(order).same_end(w.run(schedule)->0),
        w.run(schedule)->0.vault matches Some(v) ==> v.wf(),
        w.vault is Some <==> w.run(schedule)->0.vault is Some,
        w.vault is Some && order.len() > 0 ==> w.run(schedule)->0.vault->0.lock_state()
            == effect_of(w.jobs[order.last()]),
        order.len() == 0 ==> w.run(schedule)->0.vault == w.vault,
{
    assert(w.steady()) by {
        assert forall|u: int| w.has(u) && w.holder != Some(u) implies (#[trigger] w.jobs[u]).is_early()
            || w.jobs[u].is_done() by {
            assert(is_start(w.jobs[u]));
        }
    }
    let order = lemma_crowd_is_serial(w, schedule);
    assert forall|u: int| w.has(u) <==> order.contains(u) by {
        if w.has(u) {
            assert(is_start(w.jobs[u]));
        }
        if order.contains(u) {
            let k = choose|k: int| 0 <= k < order.len() && order[k] == u;
            assert(w.has(order[k]));
        }
    }
    assert forall|k: int| 0 <= k < order.len() implies w.has(#[trigger] order[k]) && is_start(
        w.jobs[order[k]],
    ) by {}
    lemma_serial_ends_as_last(w, order);
    order
}

} // verus!
