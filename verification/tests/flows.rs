use vault_market::error::AppError;
use vault_market::market_models::{UserMarketPurchase, UserWallet};
use vault_market::purchase::{MarketError, PurchasePlan};
use vault_market::purchase_flow::{
    PurchaseAction, PurchaseFailure, PurchaseFlow, PurchaseOutcome, PurchaseProgress,
    PurchaseReply, PurchaseStep,
};
use vault_market::reason::LockReason;
use vault_market::unlock_unit::{UnlockAction, UnlockProgress, UnlockReply, UnlockStep, UnlockUnit};
use vault_market::vault::Vault;

const USER: u128 = 1;
const ITEM: u128 = 10;

fn wallet(total: i32, earned: i32, spent: i32) -> UserWallet {
    UserWallet {
        id: 500,
        user_id: USER,
        total_coins: total,
        earned_coins: earned,
        spent_coins: spent,
        updated_at: 0,
        created_at: 0,
    }
}

fn begin(quantity: i32) -> PurchaseFlow {
    match PurchaseFlow::begin(USER, ITEM, quantity, 700) {
        PurchaseProgress::Continue(f) => f,
        other => panic!("{:?}", other),
    }
}

fn go_on(flow: PurchaseFlow, reply: PurchaseReply) -> PurchaseFlow {
    match flow.next(reply) {
        PurchaseProgress::Continue(f) => f,
        other => panic!("{:?}", other),
    }
}

/// Runs a purchase against the replies and returns what was asked and how
/// it ended.
fn run(quantity: i32, replies: &[PurchaseReply]) -> (Vec<PurchaseAction>, Option<PurchaseOutcome>) {
    let mut flow = begin(quantity);
    let mut asked = vec![];
    for reply in replies {
        asked.push(flow.action());
        match flow.next(*reply) {
            PurchaseProgress::Continue(f) => flow = f,
            PurchaseProgress::Finished(o) => return (asked, Some(o)),
        }
    }
    asked.push(flow.action());
    (asked, None)
}

#[test]
fn purchase_that_goes_through() {
    let w = wallet(100, 100, 0);
    let (asked, end) = run(
        2,
        &[
            PurchaseReply::Done,
            PurchaseReply::Price(Some(30)),
            PurchaseReply::Wallet(Some(w), 5),
            PurchaseReply::Purchase(None),
            PurchaseReply::Done,
            PurchaseReply::Done,
            PurchaseReply::Done,
            PurchaseReply::Done,
        ],
    );
    let row = UserMarketPurchase {
        id: 700,
        user_id: USER,
        item_id: ITEM,
        quantity: 2,
        cost_paid_coins: 60,
        purchased_at: 5,
    };
    assert_eq!(end, Some(PurchaseOutcome::Bought(row)));
    assert_eq!(
        asked,
        vec![
            PurchaseAction::Begin,
            PurchaseAction::ReadPrice { item_id: ITEM },
            PurchaseAction::LockWallet { user_id: USER },
            PurchaseAction::ReadPurchase { user_id: USER, item_id: ITEM },
            PurchaseAction::WriteWallet {
                wallet: UserWallet { total_coins: 40, spent_coins: 60, updated_at: 5, ..w }
            },
            PurchaseAction::AppendSpend { user_id: USER, amount: 60 },
            PurchaseAction::WritePurchase { purchase: row },
            PurchaseAction::Commit,
        ]
    );
}

#[test]
fn purchase_is_refused_before_the_store_for_a_bad_quantity() {
    for q in [0, -1, i32::MIN] {
        assert_eq!(
            PurchaseFlow::begin(USER, ITEM, q, 700),
            PurchaseProgress::Finished(PurchaseOutcome::Failed(PurchaseFailure::Refused(
                MarketError::InvalidQuantity
            )))
        );
    }
}

#[test]
fn refusals_roll_back_without_a_write() {
    let w = wallet(100, 100, 0);
    let cases: Vec<(Vec<PurchaseReply>, MarketError)> = vec![
        (vec![PurchaseReply::Done, PurchaseReply::Price(None)], MarketError::ItemNotFound),
        (
            vec![
                PurchaseReply::Done,
                PurchaseReply::Price(Some(30)),
                PurchaseReply::Wallet(None, 5),
            ],
            MarketError::WalletNotFound,
        ),
        (
            vec![
                PurchaseReply::Done,
                PurchaseReply::Price(Some(51)),
                PurchaseReply::Wallet(Some(w), 5),
                PurchaseReply::Purchase(None),
            ],
            MarketError::InsufficientFunds,
        ),
        (
            vec![
                PurchaseReply::Done,
                PurchaseReply::Price(Some(0)),
                PurchaseReply::Wallet(Some(w), 5),
                PurchaseReply::Purchase(Some(UserMarketPurchase {
                    id: 1,
                    user_id: USER,
                    item_id: ITEM,
                    quantity: i32::MAX - 1,
                    cost_paid_coins: 0,
                    purchased_at: 0,
                })),
            ],
            MarketError::OutOfRange,
        ),
    ];
    for (mut replies, error) in cases {
        replies.push(PurchaseReply::Done);
        let (asked, end) = run(2, &replies);
        assert_eq!(end, Some(PurchaseOutcome::Failed(PurchaseFailure::Refused(error))));
        assert_eq!(asked.last(), Some(&PurchaseAction::Rollback));
        assert!(asked.iter().all(|a| !matches!(
            a,
            PurchaseAction::WriteWallet { .. }
                | PurchaseAction::AppendSpend { .. }
                | PurchaseAction::WritePurchase { .. }
                | PurchaseAction::Commit
        )));
    }
}

#[test]
fn a_failure_at_any_step_rolls_back() {
    let w = wallet(100, 100, 0);
    let good = [
        PurchaseReply::Done,
        PurchaseReply::Price(Some(30)),
        PurchaseReply::Wallet(Some(w), 5),
        PurchaseReply::Purchase(None),
        PurchaseReply::Done,
        PurchaseReply::Done,
        PurchaseReply::Done,
    ];
    for failing in 1..good.len() {
        let mut replies: Vec<PurchaseReply> = good[..failing].to_vec();
        replies.push(PurchaseReply::Failed);
        replies.push(PurchaseReply::Done);
        let (asked, end) = run(2, &replies);
        assert_eq!(end, Some(PurchaseOutcome::Failed(PurchaseFailure::StoreFailed)));
        assert_eq!(asked.len(), failing + 2);
        assert_eq!(asked.last(), Some(&PurchaseAction::Rollback));
    }
    let (asked, end) = run(2, &[PurchaseReply::Failed]);
    assert_eq!(end, Some(PurchaseOutcome::Failed(PurchaseFailure::StoreFailed)));
    assert_eq!(asked, vec![PurchaseAction::Begin]);
}

#[test]
fn a_failed_commit_is_a_failed_purchase() {
    let plan = PurchasePlan {
        total_cost: 1,
        wallet: wallet(0, 1, 1),
        purchase: UserMarketPurchase {
            id: 1,
            user_id: USER,
            item_id: ITEM,
            quantity: 1,
            cost_paid_coins: 1,
            purchased_at: 0,
        },
    };
    let flow = PurchaseFlow {
        user_id: USER,
        item_id: ITEM,
        quantity: 1,
        purchase_id: 1,
        step: PurchaseStep::Committing { plan },
    };
    assert_eq!(
        flow.next(PurchaseReply::Failed),
        PurchaseProgress::Finished(PurchaseOutcome::Failed(PurchaseFailure::StoreFailed))
    );
    assert_eq!(
        flow.next(PurchaseReply::Done),
        PurchaseProgress::Finished(PurchaseOutcome::Bought(plan.purchase))
    );
}

#[test]
fn an_unexpected_reply_rolls_back() {
    let flow = go_on(begin(1), PurchaseReply::Done);
    let flow = go_on(flow, PurchaseReply::Wallet(None, 0));
    assert_eq!(flow.step, PurchaseStep::RollingBack { failure: PurchaseFailure::StoreFailed });
    let flow = go_on(go_on(begin(1), PurchaseReply::Done), PurchaseReply::Price(Some(1)));
    let flow = go_on(flow, PurchaseReply::Done);
    assert_eq!(flow.step, PurchaseStep::RollingBack { failure: PurchaseFailure::StoreFailed });
}

#[test]
fn a_wallet_that_does_not_add_up_rolls_back() {
    let flow = go_on(go_on(begin(1), PurchaseReply::Done), PurchaseReply::Price(Some(1)));
    let flow = go_on(flow, PurchaseReply::Wallet(Some(wallet(10, 5, 0)), 0));
    assert_eq!(flow.step, PurchaseStep::RollingBack { failure: PurchaseFailure::StoreFailed });
    let forged = PurchaseFlow {
        user_id: USER,
        item_id: ITEM,
        quantity: 1,
        purchase_id: 1,
        step: PurchaseStep::ReadingPurchase { price: 1, wallet: wallet(-1, 0, 1), now: 0 },
    };
    let flow = go_on(forged, PurchaseReply::Purchase(None));
    assert_eq!(flow.step, PurchaseStep::RollingBack { failure: PurchaseFailure::StoreFailed });
}

#[test]
fn purchase_outcome_as_answer() {
    let row = UserMarketPurchase {
        id: 1,
        user_id: USER,
        item_id: ITEM,
        quantity: 1,
        cost_paid_coins: 1,
        purchased_at: 0,
    };
    assert_eq!(PurchaseOutcome::Bought(row).into_result(), Ok(row));
    assert_eq!(
        PurchaseOutcome::Failed(PurchaseFailure::Refused(MarketError::InsufficientFunds))
            .into_result(),
        Err(AppError::BadRequest("Insufficient coins".to_string()))
    );
    assert_eq!(
        PurchaseOutcome::Failed(PurchaseFailure::StoreFailed).into_result(),
        Err(AppError::Internal("Failed to purchase item".to_string()))
    );
}

fn unlock_run(replies: &[UnlockReply]) -> (Vec<UnlockAction>, Option<bool>) {
    let mut unit = UnlockUnit::start(USER);
    let mut asked = vec![];
    for reply in replies {
        asked.push(unit.action());
        match unit.next(*reply) {
            UnlockProgress::Continue(u) => unit = u,
            UnlockProgress::Finished(done) => return (asked, Some(done)),
        }
    }
    asked.push(unit.action());
    (asked, None)
}

#[test]
fn unlock_of_a_locked_vault() {
    let mut locked = Vault::new(100, USER, 1);
    locked.lock(LockReason::Logout, 2);
    let (asked, end) = unlock_run(&[
        UnlockReply::Done,
        UnlockReply::Done,
        UnlockReply::Row(Some(locked), 9),
        UnlockReply::Done,
        UnlockReply::Done,
    ]);
    assert_eq!(end, Some(true));
    let mut unlocked = Vault::new(100, USER, 1);
    unlocked.updated_at = 9;
    assert_eq!(
        asked,
        vec![
            UnlockAction::Begin,
            UnlockAction::AcquireUserLock { user_id: USER },
            UnlockAction::ReadVault { user_id: USER },
            UnlockAction::WriteVault { vault: unlocked },
            UnlockAction::Commit,
        ]
    );
}

#[test]
fn unlock_of_an_unlocked_or_missing_vault_writes_nothing() {
    for row in [Some(Vault::new(100, USER, 1)), None] {
        let (asked, end) = unlock_run(&[
            UnlockReply::Done,
            UnlockReply::Done,
            UnlockReply::Row(row, 9),
            UnlockReply::Done,
        ]);
        assert_eq!(end, Some(true));
        assert_eq!(
            asked,
            vec![
                UnlockAction::Begin,
                UnlockAction::AcquireUserLock { user_id: USER },
                UnlockAction::ReadVault { user_id: USER },
                UnlockAction::Commit,
            ]
        );
    }
}

#[test]
fn unlock_gives_the_lock_back_on_every_failure() {
    let mut locked = Vault::new(100, USER, 1);
    locked.lock(LockReason::Idle, 2);
    let good = [
        UnlockReply::Done,
        UnlockReply::Done,
        UnlockReply::Row(Some(locked), 9),
        UnlockReply::Done,
    ];
    for failing in 1..good.len() {
        let mut replies: Vec<UnlockReply> = good[..failing].to_vec();
        replies.push(UnlockReply::Failed);
        replies.push(UnlockReply::Done);
        let (asked, end) = unlock_run(&replies);
        assert_eq!(end, Some(false));
        assert_eq!(asked.last(), Some(&UnlockAction::Rollback));
    }
    assert_eq!(unlock_run(&[UnlockReply::Failed]), (vec![UnlockAction::Begin], Some(false)));
    let committing = UnlockUnit { user_id: USER, step: UnlockStep::Committing };
    assert_eq!(committing.next(UnlockReply::Failed), UnlockProgress::Finished(false));
    let mixed = UnlockUnit { user_id: USER, step: UnlockStep::Reading };
    assert_eq!(
        mixed.next(UnlockReply::Done),
        UnlockProgress::Continue(UnlockUnit { user_id: USER, step: UnlockStep::RollingBack })
    );
}
