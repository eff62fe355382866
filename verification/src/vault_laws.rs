//! What holds of every table of vaults and of every run of lock and unlock
//! calls against one.

use vstd::prelude::*;
use crate::reason::LockReason;
use crate::vault::Vault;
use crate::vault::VaultLockState;
use crate::vault_repo::ensure_spec;
use crate::vault_repo::lock_spec;
use crate::vault_repo::state_spec;
use crate::vault_repo::table_wf;
use crate::vault_repo::unlock_spec;

verus! {

/// One call that changes the lock of a vault, with the time at which the
/// store carries it out.
#[derive(Debug, Clone, Copy, PartialEq, Eq, Structural)]
pub enum LockCall {
    Lock(LockReason, i64),
    Unlock(i64),
}

impl LockCall {
    /// The table after this call for `user`.
    pub open spec fn apply(self, t: Map<u128, Vault>, user: u128) -> Map<u128, Vault> {
        match self {
            LockCall::Lock(reason, now) => lock_spec(t, user, reason, now),
            LockCall::Unlock(now) => unlock_spec(t, user, now),
        }
    }

    /// The lock state that this call leaves behind.
    pub open spec fn effect(self) -> VaultLockState {
        match self {
            LockCall::Lock(reason, now) => VaultLockState {
                locked_at: Some(now),
                lock_reason: Some(reason),
            },
            LockCall::Unlock(_) => VaultLockState { locked_at: None, lock_reason: None },
        }
    }
}

/// The table after `calls` were carried out for `user`, one after the
/// other, in the order of the sequence.
pub open spec fn apply_calls(t: Map<u128, Vault>, user: u128, calls: Seq<LockCall>) -> Map<
    u128,
    Vault,
>
    decreases calls.len(),
{
    if calls.len() == 0 {
        t
    } else {
        calls.last().apply(apply_calls(t, user, calls.drop_last()), user)
    }
}

/// A vault that was just created for a user who had none is unlocked, and
/// after the vault was provided its state is always found.
pub proof fn lemma_fresh_vault_is_unlocked(t: Map<u128, Vault>, user: u128, new_id: u128, now: i64)
    ensures
        state_spec(ensure_spec(t, user, new_id, now), user) is Some,
        !t.contains_key(user) ==> state_spec(ensure_spec(t, user, new_id, now), user) == Some(
            VaultLockState { locked_at: None, lock_reason: None },
        ),
        t.contains_key(user) ==> ensure_spec(t, user, new_id, now) == t,
        table_wf(t) ==> table_wf(ensure_spec(t, user, new_id, now)),
{
}

/// Providing a vault twice is the same as providing it once.
pub proof fn lemma_ensure_is_idempotent(
    t: Map<u128, Vault>,
    user: u128,
    id1: u128,
    now1: i64,
    id2: u128,
    now2: i64,
)
    ensures
        ensure_spec(ensure_spec(t, user, id1, now1), user, id2, now2) == ensure_spec(
            t,
            user,
            id1,
            now1,
        ),
{
}

/// A lock always leaves the vault locked for the reason given, whatever the
/// state before; the earlier reason and time are gone.
pub proof fn lemma_lock_overwrites(t: Map<u128, Vault>, user: u128, reason: LockReason, now: i64)
    requires
        t.contains_key(user),
    ensures
        state_spec(lock_spec(t, user, reason, now), user) == Some(
            VaultLockState { locked_at: Some(now), lock_reason: Some(reason) },
        ),
{
}

/// Unlocking a vault that is not locked changes nothing at all.
pub proof fn lemma_unlock_of_unlocked_is_noop(t: Map<u128, Vault>, user: u128, now: i64)
    requires
        t.contains_key(user) ==> t[user].lock_state().is_unlocked(),
    ensures
        unlock_spec(t, user, now) == t,
{
    assert(unlock_spec(t, user, now) =~= t);
}

/// An unlock leaves the vault unlocked, whatever the state before.
pub proof fn lemma_unlock_leaves_unlocked(t: Map<u128, Vault>, user: u128, now: i64)
    requires
        t.contains_key(user),
    ensures
        state_spec(unlock_spec(t, user, now), user) == Some(
            VaultLockState { locked_at: None, lock_reason: None },
        ),
{
}

/// However lock and unlock calls for one user are ordered, every state on
/// the way has a lock time exactly when it has a lock reason, the state at
/// the end is the one that the last call leaves behind, and no other user's
/// vault is touched.
pub proof fn lemma_calls_in_any_order(t: Map<u128, Vault>, user: u128, calls: Seq<LockCall>)
    requires
        table_wf(t),
    ensures
        forall|k: int|
            0 <= k <= calls.len() ==> table_wf(#[trigger] apply_calls(t, user, calls.take(k))),
        table_wf(apply_calls(t, user, calls)),
        apply_calls(t, user, calls).dom() == t.dom(),
        forall|u: u128| u != user && t.contains_key(u) ==> apply_calls(t, user, calls)[u] == t[u],
        t.contains_key(user) && calls.len() > 0 ==> state_spec(
            apply_calls(t, user, calls),
            user,
        ) == Some(calls.last().effect()),
{
    lemma_calls_keep_table(t, user, calls);
    assert forall|k: int| 0 <= k <= calls.len() implies table_wf(
        #[trigger] apply_calls(t, user, calls.take(k)),
    ) by {
        lemma_calls_keep_table(t, user, calls.take(k));
    }
}

proof fn lemma_calls_keep_table(t: Map<u128, Vault>, user: u128, calls: Seq<LockCall>)
    requires
        table_wf(t),
    ensures
        table_wf(apply_calls(t, user, calls)),
        apply_calls(t, user, calls).dom() == t.dom(),
        forall|u: u128| u != user && t.contains_key(u) ==> apply_calls(t, user, calls)[u] == t[u],
        t.contains_key(user) && calls.len() > 0 ==> state_spec(
            apply_calls(t, user, calls),
            user,
        ) == Some(calls.last().effect()),
    decreases calls.len(),
{
    if calls.len() > 0 {
        lemma_calls_keep_table(t, user, calls.drop_last());
        let before = apply_calls(t, user, calls.drop_last());
        let after = calls.last().apply(before, user);
        assert(after.dom() =~= before.dom());
    }
}

/// Calls for two different users do not see each other: in either order
/// they leave the same table.
pub proof fn lemma_users_are_independent(
    t: Map<u128, Vault>,
    user1: u128,
    call1: LockCall,
    user2: u128,
    call2: LockCall,
)
    requires
        user1 != user2,
    ensures
        call2.apply(call1.apply(t, user1), user2) == call1.apply(call2.apply(t, user2), user1),
{
    assert(call2.apply(call1.apply(t, user1), user2) =~= call1.apply(call2.apply(t, user2), user1));
}

} // verus!
