//! The table of vaults, one row per user.

use vstd::prelude::*;
use std::collections::HashMap;
use crate::reason::LockReason;
use crate::vault::Vault;
use crate::vault::VaultLockState;

verus! {

broadcast use vstd::std_specs::hash::group_hash_axioms;

/// What the store reports when it cannot do what was asked.
#[derive(Debug, Clone, Copy, PartialEq, Eq, Structural)]
pub enum StoreError {
    /// The row that the statement was to change or return is not there.
    RowNotFound,
    /// Any other failure of the store.
    Other,
}

/// Every row is filed under its own user and has a lock time exactly when
/// it has a lock reason.
pub open spec fn table_wf(t: Map<u128, Vault>) -> bool {
    forall|u: u128| #[trigger] t.contains_key(u) ==> t[u].user_id == u && t[u].wf()
}

/// The table after `user`'s vault was provided: a fresh row under `new_id`
/// if the user had none, no change if the user had one.
pub open spec fn ensure_spec(t: Map<u128, Vault>, user: u128, new_id: u128, now: i64) -> Map<
    u128,
    Vault,
> {
    if t.contains_key(user) {
        t
    } else {
        t.insert(user, Vault::fresh(new_id, user, now))
    }
}

/// The table after a lock of `user`'s vault. Without a row nothing changes.
pub open spec fn lock_spec(t: Map<u128, Vault>, user: u128, reason: LockReason, now: i64) -> Map<
    u128,
    Vault,
> {
    if t.contains_key(user) {
        t.insert(user, t[user].locked_spec(reason, now))
    } else {
        t
    }
}

/// The table after an unlock of `user`'s vault. Without a row, or with a
/// row that is not locked, nothing changes.
pub open spec fn unlock_spec(t: Map<u128, Vault>, user: u128, now: i64) -> Map<u128, Vault> {
    if t.contains_key(user) {
        t.insert(user, t[user].unlocked_spec(now))
    } else {
        t
    }
}

/// The lock state of `user`'s vault, if the user has one.
pub open spec fn state_spec(t: Map<u128, Vault>, user: u128) -> Option<VaultLockState> {
    if t.contains_key(user) {
        Some(t[user].lock_state())
    } else {
        None
    }
}

/// The vaults of all users.
pub struct VaultRepo {
    rows: HashMap<u128, Vault>,
}

impl View for VaultRepo {
    type V = Map<u128, Vault>;

    closed spec fn view(&self) -> Map<u128, Vault> {
        self.rows@
    }
}

impl VaultRepo {
    /// A table without rows.
    pub fn new() -> (r: VaultRepo)
        ensures
            r@ == Map::<u128, Vault>::empty(),
            table_wf(r@),
    {
        VaultRepo { rows: HashMap::new() }
    }

    /// Provides the user's vault: creates it, unlocked, if the user has none,
    /// and returns the id of the vault that the user then has.
    pub fn ensure_vault(&mut self, user_id: u128, new_id: u128, now: i64) -> (id: u128)
        requires
            table_wf(old(self)@),
        ensures
            final(self)@ == ensure_spec(old(self)@, user_id, new_id, now),
            final(self)@.contains_key(user_id),
            id == final(self)@[user_id].id,
            table_wf(final(self)@),
    {
        match self.rows.get(&user_id) {
            Some(v) => v.id,
            None => {
                self.rows.insert(user_id, Vault::new(new_id, user_id, now));
                new_id
            },
        }
    }

    /// The lock state of the user's vault, or nothing if the user has none.
    pub fn get_vault_state_full(&self, user_id: u128) -> (r: Option<VaultLockState>)
        requires
            table_wf(self@),
        ensures
            r == state_spec(self@, user_id),
            r matches Some(s) ==> s.wf(),
    {
        match self.rows.get(&user_id) {
            Some(v) => Some(v.state()),
            None => None,
        }
    }

    /// Locks the user's vault for `reason`, whether or not it was locked.
    /// Without a row it reports that and changes nothing.
    pub fn lock_vault(&mut self, user_id: u128, reason: LockReason, now: i64) -> (r: Result<
        (),
        StoreError,
    >)
        requires
            table_wf(old(self)@),
        ensures
            final(self)@ == lock_spec(old(self)@, user_id, reason, now),
            r is Ok <==> old(self)@.contains_key(user_id),
            r matches Err(e) ==> e == StoreError::RowNotFound,
            table_wf(final(self)@),
    {
        match self.rows.get(&user_id) {
            Some(v) => {
                let mut row = *v;
                row.lock(reason, now);
                self.rows.insert(user_id, row);
                Ok(())
            },
            None => Err(StoreError::RowNotFound),
        }
    }

    /// Unlocks the user's vault if it is locked. A vault that is not locked,
    /// or a user without a vault, is left as it is.
    pub fn unlock_vault(&mut self, user_id: u128, now: i64)
        requires
            table_wf(old(self)@),
        ensures
            final(self)@ == unlock_spec(old(self)@, user_id, now),
            table_wf(final(self)@),
    {
        match self.rows.get(&user_id) {
            Some(v) => {
                let mut row = *v;
                if row.unlock(now) {
                    self.rows.insert(user_id, row);
                } else {
                    assert(self.rows@ =~= unlock_spec(self.rows@, user_id, now));
                }
            },
            None => {},
        }
    }
}

} // verus!
