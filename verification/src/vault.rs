//! The vault record and its lock state.
//!
//! A vault is either unlocked or locked for a reason. The secret material
//! that a vault guards stays with the store: the record here holds only what
//! decides whether the secrets may be used.

use vstd::prelude::*;
use crate::reason::LockReason;

verus! {

/// One user's vault, as far as locking is concerned.
#[derive(Debug, Clone, Copy, PartialEq, Eq, Structural)]
pub struct Vault {
    pub id: u128,
    pub user_id: u128,
    pub locked_at: Option<i64>,
    pub lock_reason: Option<LockReason>,
    pub enforce_tier: i32,
    pub last_rotated_at: Option<i64>,
    pub next_rotation_due: Option<i64>,
    pub created_at: i64,
    pub updated_at: i64,
}

/// When a vault was locked and why; both absent while it is unlocked.
#[derive(Debug, Clone, Copy, PartialEq, Eq, Structural)]
pub struct VaultLockState {
    pub locked_at: Option<i64>,
    pub lock_reason: Option<LockReason>,
}

/// A request to lock the vault. The reason is one of `idle`,
/// `backgrounded`, `logout`, `force`, `rotation`, `admin`.
#[derive(Debug, Clone)]
pub struct LockVaultRequest {
    pub reason: String,
}

/// A request to unlock the vault. It carries nothing: the session that
/// sends it is the credential.
#[derive(Debug, Clone, Copy, PartialEq, Eq, Structural, Default)]
pub struct UnlockVaultRequest {}

/// The lock state after an unlock.
#[derive(Debug, Clone, Copy, PartialEq, Eq, Structural)]
pub struct UnlockVaultResponse {
    pub locked_at: Option<i64>,
    pub lock_reason: Option<LockReason>,
}

impl VaultLockState {
    /// A time of locking is there exactly when a reason is.
    pub open spec fn wf(&self) -> bool {
        self.locked_at is Some <==> self.lock_reason is Some
    }

    /// Neither a time of locking nor a reason is there.
    pub open spec fn is_unlocked(&self) -> bool {
        self.locked_at is None && self.lock_reason is None
    }

    /// The state of a vault that is not locked.
    pub fn unlocked() -> (r: VaultLockState)
        ensures
            r == (VaultLockState { locked_at: None, lock_reason: None }),
    {
        VaultLockState { locked_at: None, lock_reason: None }
    }

    /// The state of a vault locked at `at` for `reason`.
    pub fn locked(at: i64, reason: LockReason) -> (r: VaultLockState)
        ensures
            r == (VaultLockState { locked_at: Some(at), lock_reason: Some(reason) }),
    {
        VaultLockState { locked_at: Some(at), lock_reason: Some(reason) }
    }
}

impl Vault {
    /// A time of locking is there exactly when a reason is.
    pub open spec fn wf(&self) -> bool {
        self.locked_at is Some <==> self.lock_reason is Some
    }

    /// The vault that a user gets on first use: unlocked, never rotated.
    pub open spec fn fresh(id: u128, user_id: u128, now: i64) -> Vault {
        Vault {
            id,
            user_id,
            locked_at: None,
            lock_reason: None,
            enforce_tier: 0,
            last_rotated_at: None,
            next_rotation_due: None,
            created_at: now,
            updated_at: now,
        }
    }

    /// This vault locked at `now` for `reason`, whatever it was before.
    pub open spec fn locked_spec(self, reason: LockReason, now: i64) -> Vault {
        Vault { locked_at: Some(now), lock_reason: Some(reason), updated_at: now, ..self }
    }

    /// This vault unlocked at `now` if it was locked; unchanged if not.
    pub open spec fn unlocked_spec(self, now: i64) -> Vault {
        if self.locked_at is Some || self.lock_reason is Some {
            Vault { locked_at: None, lock_reason: None, updated_at: now, ..self }
        } else {
            self
        }
    }

    pub open spec fn lock_state(&self) -> VaultLockState {
        VaultLockState { locked_at: self.locked_at, lock_reason: self.lock_reason }
    }

    pub fn new(id: u128, user_id: u128, now: i64) -> (r: Vault)
        ensures
            r == Vault::fresh(id, user_id, now),
    {
        Vault {
            id,
            user_id,
            locked_at: None,
            lock_reason: None,
            enforce_tier: 0,
            last_rotated_at: None,
            next_rotation_due: None,
            created_at: now,
            updated_at: now,
        }
    }

    /// Locks the vault: the new reason and time replace any earlier ones.
    pub fn lock(&mut self, reason: LockReason, now: i64)
        ensures
            *final(self) == old(self).locked_spec(reason, now),
    {
        self.locked_at = Some(now);
        self.lock_reason = Some(reason);
        self.updated_at = now;
    }

    /// Unlocks the vault if it is locked, and says whether it was.
    pub fn unlock(&mut self, now: i64) -> (was_locked: bool)
        ensures
            *final(self) == old(self).unlocked_spec(now),
            was_locked == (old(self).locked_at is Some || old(self).lock_reason is Some),
    {
        if self.locked_at.is_some() || self.lock_reason.is_some() {
            self.locked_at = None;
            self.lock_reason = None;
            self.updated_at = now;
            true
        } else {
            false
        }
    }

    pub fn state(&self) -> (r: VaultLockState)
        ensures
            r == self.lock_state(),
    {
        VaultLockState { locked_at: self.locked_at, lock_reason: self.lock_reason }
    }
}

} // verus!
