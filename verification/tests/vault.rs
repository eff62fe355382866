use vault_market::error::AppError;
use vault_market::named::NamedEnum;
use vault_market::reason::LockReason;
use vault_market::vault::{
    LockVaultRequest, UnlockVaultRequest, UnlockVaultResponse, Vault, VaultLockState,
};
use vault_market::vault_flow::{
    VaultAction, VaultFlow, VaultOp, VaultOutcome, VaultProgress, VaultStep,
};
use vault_market::vault_repo::{StoreError, VaultRepo};
use vault_market::vault_routes::{
    get_vault_state, lock_answer, lock_vault, perform, run, state_answer, unlock_answer,
    unlock_vault,
};

const USER: u128 = 7;
const OTHER: u128 = 8;

fn request(reason: &str) -> LockVaultRequest {
    LockVaultRequest { reason: reason.to_string() }
}

#[test]
fn fresh_vault_is_unlocked() {
    let mut repo = VaultRepo::new();
    let id = repo.ensure_vault(USER, 100, 5);
    assert_eq!(id, 100);
    assert_eq!(
        repo.get_vault_state_full(USER),
        Some(VaultLockState { locked_at: None, lock_reason: None })
    );
}

#[test]
fn state_of_unknown_user_is_absent() {
    let repo = VaultRepo::new();
    assert_eq!(repo.get_vault_state_full(USER), None);
}

#[test]
fn ensure_is_idempotent() {
    let mut repo = VaultRepo::new();
    assert_eq!(repo.ensure_vault(USER, 100, 5), 100);
    repo.lock_vault(USER, LockReason::Admin, 6).unwrap();
    assert_eq!(repo.ensure_vault(USER, 200, 7), 100);
    assert_eq!(
        repo.get_vault_state_full(USER),
        Some(VaultLockState { locked_at: Some(6), lock_reason: Some(LockReason::Admin) })
    );
}

#[test]
fn lock_then_state_then_unlock() {
    let mut repo = VaultRepo::new();
    assert_eq!(lock_vault(&mut repo, USER, &request("logout"), 100, 10), Ok("Vault locked"));
    let state = get_vault_state(&mut repo, USER, 101, 11).unwrap();
    assert_eq!(state.locked_at, Some(10));
    assert_eq!(state.lock_reason.map(|r| r.as_str()), Some("logout"));
    let answer = unlock_vault(&mut repo, USER, UnlockVaultRequest {}, 102, 12);
    assert_eq!(answer, Ok(UnlockVaultResponse { locked_at: None, lock_reason: None }));
    assert_eq!(
        get_vault_state(&mut repo, USER, 103, 13),
        Ok(VaultLockState { locked_at: None, lock_reason: None })
    );
}

#[test]
fn lock_overwrites_reason_and_time() {
    let mut repo = VaultRepo::new();
    lock_vault(&mut repo, USER, &request("admin"), 100, 10).unwrap();
    lock_vault(&mut repo, USER, &request("idle"), 101, 20).unwrap();
    assert_eq!(
        repo.get_vault_state_full(USER),
        Some(VaultLockState { locked_at: Some(20), lock_reason: Some(LockReason::Idle) })
    );
}

#[test]
fn unlock_of_unlocked_vault_is_no_error_and_no_change() {
    let mut repo = VaultRepo::new();
    repo.ensure_vault(USER, 100, 5);
    let answer = unlock_vault(&mut repo, USER, UnlockVaultRequest {}, 101, 50);
    assert_eq!(answer, Ok(UnlockVaultResponse { locked_at: None, lock_reason: None }));
    let mut row = Vault::new(100, USER, 5);
    assert!(!row.unlock(50));
    assert_eq!(row, Vault::new(100, USER, 5));
}

#[test]
fn unlock_provides_the_vault_of_a_new_user() {
    let mut repo = VaultRepo::new();
    let answer = unlock_vault(&mut repo, USER, UnlockVaultRequest {}, 100, 5);
    assert_eq!(answer, Ok(UnlockVaultResponse { locked_at: None, lock_reason: None }));
    assert_eq!(repo.ensure_vault(USER, 999, 6), 100);
}

#[test]
fn empty_reason_is_refused_before_the_store() {
    let mut repo = VaultRepo::new();
    let r = lock_vault(&mut repo, USER, &request(""), 100, 10);
    assert_eq!(r, Err(AppError::BadRequest("Lock reason cannot be empty".to_string())));
    assert_eq!(repo.get_vault_state_full(USER), None);
}

#[test]
fn unknown_reason_is_refused_before_the_store() {
    let mut repo = VaultRepo::new();
    for text in ["Logout", "sleep", " idle", "idle ", "admins"] {
        let r = lock_vault(&mut repo, USER, &request(text), 100, 10);
        assert_eq!(r, Err(AppError::BadRequest(format!("Unknown LockReason: {}", text))));
        assert_eq!(repo.get_vault_state_full(USER), None);
    }
    let (status, body) = lock_vault(&mut repo, USER, &request("sleep"), 100, 10)
        .unwrap_err()
        .into_response();
    assert_eq!(status, 400);
    assert_eq!(body.error, "bad_request");
    assert!(body.message.contains("sleep"));
}

#[test]
fn every_reason_locks() {
    for (i, name) in
        ["idle", "backgrounded", "logout", "force", "rotation", "admin"].iter().enumerate()
    {
        let mut repo = VaultRepo::new();
        lock_vault(&mut repo, USER, &request(name), 1, i as i64).unwrap();
        let state = repo.get_vault_state_full(USER).unwrap();
        assert_eq!(state.locked_at, Some(i as i64));
        assert_eq!(state.lock_reason.unwrap().as_str(), *name);
    }
}

#[test]
fn users_do_not_see_each_other() {
    let mut repo = VaultRepo::new();
    lock_vault(&mut repo, USER, &request("force"), 100, 10).unwrap();
    repo.ensure_vault(OTHER, 200, 11);
    assert_eq!(
        repo.get_vault_state_full(OTHER),
        Some(VaultLockState { locked_at: None, lock_reason: None })
    );
    repo.unlock_vault(OTHER, 12);
    assert_eq!(
        repo.get_vault_state_full(USER),
        Some(VaultLockState { locked_at: Some(10), lock_reason: Some(LockReason::Force) })
    );
}

#[test]
fn lock_without_a_row_reports_it() {
    let mut repo = VaultRepo::new();
    assert_eq!(repo.lock_vault(USER, LockReason::Idle, 1), Err(StoreError::RowNotFound));
    assert_eq!(repo.get_vault_state_full(USER), None);
}

#[test]
fn unlock_request_has_a_default() {
    assert_eq!(UnlockVaultRequest::default(), UnlockVaultRequest {});
}

#[test]
fn lock_state_constructors() {
    assert_eq!(VaultLockState::unlocked(), VaultLockState { locked_at: None, lock_reason: None });
    assert_eq!(
        VaultLockState::locked(3, LockReason::Rotation),
        VaultLockState { locked_at: Some(3), lock_reason: Some(LockReason::Rotation) }
    );
    let mut v = Vault::new(1, 2, 3);
    v.lock(LockReason::Backgrounded, 9);
    assert_eq!(v.state(), VaultLockState::locked(9, LockReason::Backgrounded));
    assert_eq!(v.updated_at, 9);
    assert_eq!(v.created_at, 3);
    assert!(v.unlock(11));
    assert_eq!(v.state(), VaultLockState::unlocked());
    assert_eq!(v.updated_at, 11);
}

fn lock_flow() -> VaultFlow {
    match VaultFlow::begin_lock(&request("idle")) {
        Ok(f) => f,
        Err(e) => panic!("refused: {:?}", e),
    }
}

#[test]
fn lock_flow_without_trouble() {
    let f = lock_flow();
    assert_eq!(f, VaultFlow { op: VaultOp::Lock(LockReason::Idle), step: VaultStep::Ensuring });
    assert_eq!(f.action(), VaultAction::EnsureVault);
    let f = match f.next(Ok(None)) {
        VaultProgress::Continue(f) => f,
        other => panic!("{:?}", other),
    };
    assert_eq!(f.action(), VaultAction::LockVault(LockReason::Idle));
    assert_eq!(f.next(Ok(None)), VaultProgress::Finished(VaultOutcome::Locked));
}

#[test]
fn lock_flow_retries_once_after_missing_row() {
    let f = VaultFlow { op: VaultOp::Lock(LockReason::Idle), step: VaultStep::Locking };
    let f = match f.next(Err(StoreError::RowNotFound)) {
        VaultProgress::Continue(f) => f,
        other => panic!("{:?}", other),
    };
    assert_eq!(f.step, VaultStep::EnsuringAgain);
    assert_eq!(f.action(), VaultAction::EnsureVault);
    let f = match f.next(Ok(None)) {
        VaultProgress::Continue(f) => f,
        other => panic!("{:?}", other),
    };
    assert_eq!(f.step, VaultStep::LockingAgain);
    assert_eq!(f.action(), VaultAction::LockVault(LockReason::Idle));
    assert_eq!(
        f.next(Err(StoreError::RowNotFound)),
        VaultProgress::Finished(VaultOutcome::LockFailed)
    );
    assert_eq!(f.next(Ok(None)), VaultProgress::Finished(VaultOutcome::Locked));
}

#[test]
fn lock_flow_gives_up_on_other_failures() {
    let f = VaultFlow { op: VaultOp::Lock(LockReason::Idle), step: VaultStep::Locking };
    assert_eq!(
        f.next(Err(StoreError::Other)),
        VaultProgress::Finished(VaultOutcome::LockFailed)
    );
    let f = VaultFlow { op: VaultOp::Lock(LockReason::Idle), step: VaultStep::Ensuring };
    assert_eq!(
        f.next(Err(StoreError::Other)),
        VaultProgress::Finished(VaultOutcome::LockFailed)
    );
    let f = VaultFlow { op: VaultOp::Lock(LockReason::Idle), step: VaultStep::EnsuringAgain };
    assert_eq!(
        f.next(Err(StoreError::RowNotFound)),
        VaultProgress::Finished(VaultOutcome::LockFailed)
    );
}

#[test]
fn begin_lock_refuses_bad_reasons() {
    assert_eq!(
        VaultFlow::begin_lock(&request("")),
        Err(AppError::BadRequest("Lock reason cannot be empty".to_string()))
    );
    assert_eq!(
        VaultFlow::begin_lock(&request("sleepy")),
        Err(AppError::BadRequest("Unknown LockReason: sleepy".to_string()))
    );
    assert_eq!(
        VaultFlow::begin_lock(&request(" idle")),
        Err(AppError::BadRequest("Unknown LockReason:  idle".to_string()))
    );
    assert_eq!(
        VaultFlow::begin_lock(&request("rotation")),
        Ok(VaultFlow { op: VaultOp::Lock(LockReason::Rotation), step: VaultStep::Ensuring })
    );
}

#[test]
fn state_flow() {
    let f = VaultFlow::start(VaultOp::GetState);
    assert_eq!(f.action(), VaultAction::EnsureVault);
    assert_eq!(
        f.next(Err(StoreError::Other)),
        VaultProgress::Finished(VaultOutcome::FetchStateFailed)
    );
    let f = match f.next(Ok(None)) {
        VaultProgress::Continue(f) => f,
        other => panic!("{:?}", other),
    };
    assert_eq!(f.action(), VaultAction::ReadState);
    let s = VaultLockState::locked(4, LockReason::Admin);
    assert_eq!(f.next(Ok(Some(s))), VaultProgress::Finished(VaultOutcome::State(s)));
    assert_eq!(f.next(Ok(None)), VaultProgress::Finished(VaultOutcome::VaultNotFound));
    assert_eq!(
        f.next(Err(StoreError::RowNotFound)),
        VaultProgress::Finished(VaultOutcome::FetchStateFailed)
    );
}

#[test]
fn unlock_flow() {
    let f = VaultFlow::start(VaultOp::Unlock);
    assert_eq!(
        f.next(Err(StoreError::Other)),
        VaultProgress::Finished(VaultOutcome::FetchVaultFailed)
    );
    let f = match f.next(Ok(None)) {
        VaultProgress::Continue(f) => f,
        other => panic!("{:?}", other),
    };
    assert_eq!(f.action(), VaultAction::UnlockVault);
    assert_eq!(
        f.next(Err(StoreError::Other)),
        VaultProgress::Finished(VaultOutcome::UnlockFailed)
    );
    assert_eq!(f.next(Ok(None)), VaultProgress::Finished(VaultOutcome::Unlocked));
    let stale = VaultLockState::locked(4, LockReason::Admin);
    assert_eq!(f.next(Ok(Some(stale))), VaultProgress::Finished(VaultOutcome::Unlocked));
}

#[test]
fn a_step_that_the_operation_lacks_ends_the_request() {
    let f = VaultFlow { op: VaultOp::GetState, step: VaultStep::Locking };
    assert_eq!(f.next(Ok(None)), VaultProgress::Finished(VaultOutcome::FetchStateFailed));
    let f = VaultFlow { op: VaultOp::Unlock, step: VaultStep::LockingAgain };
    assert_eq!(f.next(Ok(None)), VaultProgress::Finished(VaultOutcome::UnlockFailed));
    let f = VaultFlow { op: VaultOp::Lock(LockReason::Idle), step: VaultStep::Reading };
    assert_eq!(f.next(Ok(None)), VaultProgress::Finished(VaultOutcome::LockFailed));
    let f = VaultFlow { op: VaultOp::Unlock, step: VaultStep::Reading };
    assert_eq!(f.next(Ok(None)), VaultProgress::Finished(VaultOutcome::UnlockFailed));
}

#[test]
fn answers_of_each_request() {
    let s = VaultLockState::locked(4, LockReason::Admin);
    assert_eq!(state_answer(VaultOutcome::State(s)), Ok(s));
    assert_eq!(
        state_answer(VaultOutcome::VaultNotFound),
        Err(AppError::NotFound("Vault not found".to_string()))
    );
    assert_eq!(
        state_answer(VaultOutcome::FetchStateFailed),
        Err(AppError::Internal("Failed to fetch vault state".to_string()))
    );
    assert_eq!(lock_answer(VaultOutcome::Locked), Ok("Vault locked"));
    assert_eq!(
        lock_answer(VaultOutcome::LockFailed),
        Err(AppError::Internal("Failed to lock vault".to_string()))
    );
    assert_eq!(
        lock_answer(VaultOutcome::VaultNotFound),
        Err(AppError::Internal("Failed to lock vault".to_string()))
    );
    assert_eq!(
        unlock_answer(VaultOutcome::Unlocked),
        Ok(UnlockVaultResponse { locked_at: None, lock_reason: None })
    );
    assert_eq!(
        unlock_answer(VaultOutcome::FetchVaultFailed),
        Err(AppError::Internal("Failed to fetch vault".to_string()))
    );
    assert_eq!(
        unlock_answer(VaultOutcome::UnlockFailed),
        Err(AppError::Internal("Failed to unlock vault".to_string()))
    );
    assert_eq!(
        unlock_answer(VaultOutcome::Locked),
        Err(AppError::Internal("Failed to unlock vault".to_string()))
    );
}

#[test]
fn perform_and_run_against_the_table() {
    let mut repo = VaultRepo::new();
    assert_eq!(
        perform(&mut repo, USER, VaultAction::LockVault(LockReason::Idle), 1, 2),
        Err(StoreError::RowNotFound)
    );
    assert_eq!(perform(&mut repo, USER, VaultAction::ReadState, 1, 2), Ok(None));
    assert_eq!(perform(&mut repo, USER, VaultAction::EnsureVault, 1, 2), Ok(None));
    assert_eq!(
        perform(&mut repo, USER, VaultAction::ReadState, 1, 2),
        Ok(Some(VaultLockState::unlocked()))
    );
    let locking = VaultFlow { op: VaultOp::Lock(LockReason::Logout), step: VaultStep::Locking };
    assert_eq!(run(&mut repo, OTHER, locking, 50, 60), VaultOutcome::Locked);
    assert_eq!(
        repo.get_vault_state_full(OTHER),
        Some(VaultLockState::locked(60, LockReason::Logout))
    );
}

#[test]
fn lock_reason_names_round_trip() {
    for r in LockReason::variants() {
        assert_eq!(LockReason::from_str(r.as_str()), Ok(r));
    }
    assert_eq!(LockReason::variants().len(), 6);
    assert_eq!(
        LockReason::from_str("IDLE"),
        Err("Unknown LockReason: IDLE".to_string())
    );
    assert_eq!(LockReason::kind(), "LockReason");
}
