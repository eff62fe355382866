//! The three vault requests, carried out against a table of vaults.

use vstd::prelude::*;
use crate::error::AppError;
use crate::reason::reason_named;
use crate::vault::LockVaultRequest;
use crate::vault::UnlockVaultRequest;
use crate::vault::UnlockVaultResponse;
use crate::vault::Vault;
use crate::vault::VaultLockState;
use crate::vault_flow::lemma_next_descends;
use crate::vault_flow::refusal_text;
use crate::vault_flow::VaultAction;
use crate::vault_flow::VaultFlow;
use crate::vault_flow::VaultOp;
use crate::vault_flow::VaultOutcome;
use crate::vault_flow::VaultProgress;
use crate::vault_repo::ensure_spec;
use crate::vault_repo::lock_spec;
use crate::vault_repo::state_spec;
use crate::vault_repo::table_wf;
use crate::vault_repo::unlock_spec;
use crate::vault_repo::StoreError;
use crate::vault_repo::VaultRepo;

verus! {

/// The table after `action` was performed for `user`.
pub open spec fn after_action(
    t: Map<u128, Vault>,
    user: u128,
    action: VaultAction,
    new_id: u128,
    now: i64,
) -> Map<u128, Vault> {
    match action {
        VaultAction::EnsureVault => ensure_spec(t, user, new_id, now),
        VaultAction::LockVault(reason) => lock_spec(t, user, reason, now),
        VaultAction::UnlockVault => unlock_spec(t, user, now),
        VaultAction::ReadState => t,
    }
}

/// What the table replies when `action` is performed for `user`.
pub open spec fn reply_of(t: Map<u128, Vault>, user: u128, action: VaultAction) -> Result<
    Option<VaultLockState>,
    StoreError,
> {
    match action {
        VaultAction::EnsureVault => Ok(None),
        VaultAction::LockVault(_) => if t.contains_key(user) {
            Ok(None)
        } else {
            Err(StoreError::RowNotFound)
        },
        VaultAction::UnlockVault => Ok(None),
        VaultAction::ReadState => Ok(state_spec(t, user)),
    }
}

/// The table and the outcome when the request `flow` runs to its end.
pub open spec fn run_spec(t: Map<u128, Vault>, user: u128, flow: VaultFlow, new_id: u128, now: i64) -> (
    Map<u128, Vault>,
    VaultOutcome,
)
    decreases flow.step.rank(),
{
    let action = flow.action_spec();
    let t2 = after_action(t, user, action, new_id, now);
    match flow.next_spec(reply_of(t, user, action)) {
        VaultProgress::Continue(f) => if f.step.rank() < flow.step.rank() {
            run_spec(t2, user, f, new_id, now)
        } else {
            (t2, crate::vault_flow::failure_of(flow.op))
        },
        VaultProgress::Finished(o) => (t2, o),
    }
}

/// Performs one action on the table and returns the table's reply.
pub fn perform(repo: &mut VaultRepo, user_id: u128, action: VaultAction, new_id: u128, now: i64) -> (reply:
    Result<Option<VaultLockState>, StoreError>)
    requires
        table_wf(old(repo)@),
    ensures
        table_wf(final(repo)@),
        final(repo)@ == after_action(old(repo)@, user_id, action, new_id, now),
        reply == reply_of(old(repo)@, user_id, action),
{
    match action {
        VaultAction::EnsureVault => {
            let _ = repo.ensure_vault(user_id, new_id, now);
            Ok(None)
        },
        VaultAction::LockVault(reason) => match repo.lock_vault(user_id, reason, now) {
            Ok(()) => Ok(None),
            Err(e) => Err(e),
        },
        VaultAction::UnlockVault => {
            repo.unlock_vault(user_id, now);
            Ok(None)
        },
        VaultAction::ReadState => Ok(repo.get_vault_state_full(user_id)),
    }
}

/// Runs a request from `flow` to its end against the table.
pub fn run(repo: &mut VaultRepo, user_id: u128, flow: VaultFlow, new_id: u128, now: i64) -> (o:
    VaultOutcome)
    requires
        table_wf(old(repo)@),
    ensures
        table_wf(final(repo)@),
        (final(repo)@, o) == run_spec(old(repo)@, user_id, flow, new_id, now),
{
    let mut current = flow;
    loop
        invariant
            table_wf(repo@),
            run_spec(repo@, user_id, current, new_id, now) == run_spec(
                old(repo)@,
                user_id,
                flow,
                new_id,
                now,
            ),
        decreases current.step.rank(),
    {
        let reply = perform(repo, user_id, current.action(), new_id, now);
        proof {
            lemma_next_descends(current, reply);
        }
        match current.next(reply) {
            VaultProgress::Continue(f) => {
                current = f;
            },
            VaultProgress::Finished(o) => {
                return o;
            },
        }
    }
}

/// The answer to a request for the lock state.
pub fn state_answer(o: VaultOutcome) -> (r: Result<VaultLockState, AppError>)
    ensures
        r is Ok <==> o is State,
        r matches Ok(s) ==> o == VaultOutcome::State(s),
        o is VaultNotFound ==> (r matches Err(AppError::NotFound(m)) && m@ == "Vault not found"@),
        !(o is State) && !(o is VaultNotFound) ==> (r matches Err(AppError::Internal(m)) && m@
            == "Failed to fetch vault state"@),
{
    match o {
        VaultOutcome::State(s) => Ok(s),
        VaultOutcome::VaultNotFound => Err(AppError::not_found("Vault not found")),
        _ => Err(AppError::internal("Failed to fetch vault state")),
    }
}

/// The answer to a lock request that reached the store.
pub fn lock_answer(o: VaultOutcome) -> (r: Result<&'static str, AppError>)
    ensures
        r is Ok <==> o is Locked,
        r matches Ok(m) ==> m@ == "Vault locked"@,
        !(o is Locked) ==> (r matches Err(AppError::Internal(m)) && m@ == "Failed to lock vault"@),
{
    match o {
        VaultOutcome::Locked => Ok("Vault locked"),
        _ => Err(AppError::internal("Failed to lock vault")),
    }
}

/// The answer to an unlock request: once the vault is unlocked, that it
/// has neither a time of locking nor a reason.
pub fn unlock_answer(o: VaultOutcome) -> (r: Result<UnlockVaultResponse, AppError>)
    ensures
        r is Ok <==> o is Unlocked,
        r matches Ok(resp) ==> resp == (UnlockVaultResponse {
            locked_at: None,
            lock_reason: None,
        }),
        o is FetchVaultFailed ==> (r matches Err(AppError::Internal(m)) && m@
            == "Failed to fetch vault"@),
        !(o is Unlocked) && !(o is FetchVaultFailed) ==> (r matches Err(AppError::Internal(m)) && m@
            == "Failed to unlock vault"@),
{
    match o {
        VaultOutcome::Unlocked => Ok(UnlockVaultResponse { locked_at: None, lock_reason: None }),
        VaultOutcome::FetchVaultFailed => Err(AppError::internal("Failed to fetch vault")),
        _ => Err(AppError::internal("Failed to unlock vault")),
    }
}

/// The lock state of the user's vault. A user without a vault is given one
/// first, so the state is always found.
pub fn get_vault_state(repo: &mut VaultRepo, user_id: u128, new_id: u128, now: i64) -> (r: Result<
    VaultLockState,
    AppError,
>)
    requires
        table_wf(old(repo)@),
    ensures
        table_wf(final(repo)@),
        final(repo)@ == ensure_spec(old(repo)@, user_id, new_id, now),
        r matches Ok(s) && Some(s) == state_spec(final(repo)@, user_id) && s.wf(),
{
    proof {
        reveal_with_fuel(run_spec, 3);
    }
    let o = run(repo, user_id, VaultFlow::start(VaultOp::GetState), new_id, now);
    state_answer(o)
}

/// Locks the user's vault for the reason that the request names.
///
/// A request whose reason is none of the six is refused as a bad request
/// whose message repeats the reason, and the table is not touched. Every
/// other request locks the vault, providing it first where the user has
/// none, and replaces whatever lock was there.
pub fn lock_vault(
    repo: &mut VaultRepo,
    user_id: u128,
    req: &LockVaultRequest,
    new_id: u128,
    now: i64,
) -> (r: Result<&'static str, AppError>)
    requires
        table_wf(old(repo)@),
    ensures
        table_wf(final(repo)@),
        r is Ok <==> reason_named(req.reason@) is Some,
        r matches Ok(m) ==> m@ == "Vault locked"@ && final(repo)@ == lock_spec(
            ensure_spec(old(repo)@, user_id, new_id, now),
            user_id,
            reason_named(req.reason@)->0,
            now,
        ),
        r is Err ==> final(repo)@ == old(repo)@,
        r matches Err(e) ==> (e matches AppError::BadRequest(m) && m@ == refusal_text(
            req.reason@,
        )),
{
    proof {
        reveal_with_fuel(run_spec, 3);
    }
    match VaultFlow::begin_lock(req) {
        Err(e) => Err(e),
        Ok(flow) => {
            let o = run(repo, user_id, flow, new_id, now);
            lock_answer(o)
        },
    }
}

/// Unlocks the user's vault and answers that it is unlocked. A vault that
/// is not locked stays as it is, and that is no failure.
pub fn unlock_vault(
    repo: &mut VaultRepo,
    user_id: u128,
    _req: UnlockVaultRequest,
    new_id: u128,
    now: i64,
) -> (r: Result<UnlockVaultResponse, AppError>)
    requires
        table_wf(old(repo)@),
    ensures
        table_wf(final(repo)@),
        final(repo)@ == unlock_spec(
            ensure_spec(old(repo)@, user_id, new_id, now),
            user_id,
            now,
        ),
        r matches Ok(resp) && resp.locked_at is None && resp.lock_reason is None,
        state_spec(final(repo)@, user_id) == Some(
            VaultLockState { locked_at: None, lock_reason: None },
        ),
{
    proof {
        reveal_with_fuel(run_spec, 3);
    }
    let o = run(repo, user_id, VaultFlow::start(VaultOp::Unlock), new_id, now);
    unlock_answer(o)
}

} // verus!
