use std::collections::HashMap;
use vault_market::market_models::{UserMarketPurchase, UserWallet};
use vault_market::purchase::MarketError;
use vault_market::purchase_flow::{
    PurchaseAction, PurchaseFailure, PurchaseFlow, PurchaseOutcome, PurchaseProgress,
    PurchaseReply,
};
use vault_market::reason::LockReason;
use vault_market::unlock_unit::{UnlockAction, UnlockProgress, UnlockReply, UnlockUnit};
use vault_market::vault::Vault;

const USER: u128 = 1;
const SWORD: u128 = 10;
const SHIELD: u128 = 11;

/// A store that holds what purchases see and gives the row of the wallet
/// to one purchase at a time.
#[derive(Clone)]
struct Books {
    prices: HashMap<u128, i32>,
    wallet: UserWallet,
    purchases: HashMap<(u128, u128), UserMarketPurchase>,
    spends: Vec<(u128, i32)>,
    holder: Option<usize>,
}

impl Books {
    fn perform(&mut self, who: usize, action: PurchaseAction, now: i64) -> Option<PurchaseReply> {
        Some(match action {
            PurchaseAction::ReadPrice { item_id } => {
                PurchaseReply::Price(self.prices.get(&item_id).copied())
            }
            PurchaseAction::LockWallet { .. } => {
                if self.holder.is_some() {
                    return None;
                }
                self.holder = Some(who);
                PurchaseReply::Wallet(Some(self.wallet), now)
            }
            PurchaseAction::ReadPurchase { user_id, item_id } => {
                PurchaseReply::Purchase(self.purchases.get(&(user_id, item_id)).copied())
            }
            PurchaseAction::WriteWallet { wallet } => {
                self.wallet = wallet;
                PurchaseReply::Done
            }
            PurchaseAction::AppendSpend { user_id, amount } => {
                self.spends.push((user_id, amount));
                PurchaseReply::Done
            }
            PurchaseAction::WritePurchase { purchase } => {
                self.purchases.insert((purchase.user_id, purchase.item_id), purchase);
                PurchaseReply::Done
            }
            PurchaseAction::Commit | PurchaseAction::Rollback => {
                if self.holder == Some(who) {
                    self.holder = None;
                }
                PurchaseReply::Done
            }
            PurchaseAction::Begin => PurchaseReply::Done,
        })
    }
}

/// Takes the steps of the purchases in every order that the store allows
/// and hands every end to `check`. Returns the number of orders.
fn every_order<const N: usize>(
    books: &Books,
    units: [PurchaseProgress; N],
    check: &dyn Fn(&Books, [PurchaseOutcome; N]),
) -> usize {
    let mut ends = [PurchaseOutcome::Failed(PurchaseFailure::StoreFailed); N];
    let mut under_way = false;
    for who in 0..N {
        match units[who] {
            PurchaseProgress::Finished(o) => ends[who] = o,
            PurchaseProgress::Continue(_) => under_way = true,
        }
    }
    if !under_way {
        check(books, ends);
        return 1;
    }
    let mut orders = 0;
    for who in 0..N {
        if let PurchaseProgress::Continue(flow) = units[who] {
            let mut next_books = books.clone();
            if let Some(reply) = next_books.perform(who, flow.action(), 100 + who as i64) {
                let mut next_units = units;
                next_units[who] = flow.next(reply);
                orders += every_order(&next_books, next_units, check);
            }
        }
    }
    assert!(orders > 0, "nobody can take a step");
    orders
}

fn books(coins: i32) -> Books {
    Books {
        prices: HashMap::from([(SWORD, 30), (SHIELD, 80)]),
        wallet: UserWallet {
            id: 500,
            user_id: USER,
            total_coins: coins,
            earned_coins: coins,
            spent_coins: 0,
            updated_at: 0,
            created_at: 0,
        },
        purchases: HashMap::new(),
        spends: vec![],
        holder: None,
    }
}

fn refused(e: MarketError) -> PurchaseOutcome {
    PurchaseOutcome::Failed(PurchaseFailure::Refused(e))
}

#[test]
fn of_two_purchases_beyond_the_balance_exactly_one_goes_through() {
    let start = [
        PurchaseFlow::begin(USER, SWORD, 1, 700),
        PurchaseFlow::begin(USER, SHIELD, 1, 701),
    ];
    let orders = every_order(&books(100), start, &|end, outcomes| {
        let bought: Vec<bool> =
            outcomes.iter().map(|o| matches!(o, PurchaseOutcome::Bought(_))).collect();
        assert_eq!(bought.iter().filter(|b| **b).count(), 1);
        let (cost, other) = if bought[0] { (30, 1) } else { (80, 0) };
        assert_eq!(outcomes[other], refused(MarketError::InsufficientFunds));
        assert_eq!(end.wallet.total_coins, 100 - cost);
        assert_eq!(end.wallet.spent_coins, cost);
        assert_eq!(end.wallet.earned_coins, 100);
        assert_eq!(end.spends, vec![(USER, cost)]);
        assert_eq!(end.purchases.len(), 1);
        assert_eq!(end.holder, None);
    });
    assert!(orders > 2);
}

#[test]
fn two_purchases_within_the_balance_both_go_through() {
    let start = [
        PurchaseFlow::begin(USER, SWORD, 1, 700),
        PurchaseFlow::begin(USER, SWORD, 2, 701),
    ];
    every_order(&books(100), start, &|end, outcomes| {
        assert!(outcomes.iter().all(|o| matches!(o, PurchaseOutcome::Bought(_))));
        assert_eq!(end.wallet.total_coins, 10);
        assert_eq!(end.wallet.spent_coins, 90);
        let row = end.purchases[&(USER, SWORD)];
        assert_eq!((row.quantity, row.cost_paid_coins), (3, 90));
        assert!(row.id == 700 || row.id == 701);
        assert_eq!(end.purchases.len(), 1);
        let mut spends = end.spends.clone();
        spends.sort();
        assert_eq!(spends, vec![(USER, 30), (USER, 60)]);
    });
}

#[test]
fn two_purchases_that_each_exceed_the_balance_both_fail() {
    let start = [
        PurchaseFlow::begin(USER, SWORD, 1, 700),
        PurchaseFlow::begin(USER, SHIELD, 1, 701),
    ];
    every_order(&books(20), start, &|end, outcomes| {
        assert_eq!(outcomes, [refused(MarketError::InsufficientFunds); 2]);
        assert_eq!(end.wallet.total_coins, 20);
        assert!(end.spends.is_empty());
        assert!(end.purchases.is_empty());
    });
}

#[test]
fn three_purchases_never_overdraw() {
    let mut start_books = books(100);
    start_books.prices.insert(12, 50);
    let start = [
        PurchaseFlow::begin(USER, SWORD, 1, 700),
        PurchaseFlow::begin(USER, SHIELD, 1, 701),
        PurchaseFlow::begin(USER, 12, 1, 702),
    ];
    let orders = every_order(&start_books, start, &|end, outcomes| {
        let costs = [30, 80, 50];
        let mut paid = 0;
        for who in 0..3 {
            match outcomes[who] {
                PurchaseOutcome::Bought(row) => {
                    assert_eq!(row.cost_paid_coins, costs[who]);
                    paid += costs[who];
                }
                other => assert_eq!(other, refused(MarketError::InsufficientFunds)),
            }
        }
        assert!(paid <= 100);
        assert!(paid == 80 || paid == 30 + 50);
        assert_eq!(end.wallet.total_coins, 100 - paid);
        assert_eq!(end.wallet.spent_coins, paid);
        assert_eq!(end.spends.iter().map(|s| s.1).sum::<i32>(), paid);
        assert_eq!(end.holder, None);
    });
    assert!(orders > 6);
}

/// A lock that is carried out in one go, or an unlock under way.
#[derive(Clone, Copy)]
enum Job {
    Lock(LockReason, i64, bool),
    Unlock(UnlockProgress, i64),
}

fn is_done(job: &Job) -> bool {
    matches!(job, Job::Lock(_, _, true) | Job::Unlock(UnlockProgress::Finished(_), _))
}

/// Takes the steps of the two jobs in every order in which the lock of the
/// user is held by one at a time and hands every end to `check`.
fn every_job_order<const N: usize>(
    vault: Vault,
    holder: Option<usize>,
    jobs: [Job; N],
    order: Vec<usize>,
    check: &dyn Fn(Vault, &[usize]),
) -> usize {
    if jobs.iter().all(is_done) {
        check(vault, &order);
        return 1;
    }
    let mut orders = 0;
    for who in 0..N {
        let mut vault = vault;
        let mut holder = holder;
        let mut jobs = jobs;
        let mut order = order.clone();
        match jobs[who] {
            Job::Lock(reason, now, false) => {
                if holder.is_some() {
                    continue;
                }
                vault.lock(reason, now);
                jobs[who] = Job::Lock(reason, now, true);
                order.push(who);
            }
            Job::Unlock(UnlockProgress::Continue(unit), now) => {
                let reply = match unit.action() {
                    UnlockAction::AcquireUserLock { .. } => {
                        if holder.is_some() {
                            continue;
                        }
                        holder = Some(who);
                        order.push(who);
                        UnlockReply::Done
                    }
                    UnlockAction::ReadVault { .. } => UnlockReply::Row(Some(vault), now),
                    UnlockAction::WriteVault { vault: written } => {
                        vault = written;
                        UnlockReply::Done
                    }
                    UnlockAction::Commit | UnlockAction::Rollback => {
                        holder = None;
                        UnlockReply::Done
                    }
                    UnlockAction::Begin => UnlockReply::Done,
                };
                jobs[who] = Job::Unlock(unit.next(reply), now);
            }
            _ => continue,
        }
        orders += every_job_order(vault, holder, jobs, order, check);
    }
    assert!(orders > 0, "nobody can take a step");
    orders
}

#[test]
fn lock_and_unlock_at_the_same_time_end_as_one_after_the_other() {
    let mut vault = Vault::new(100, USER, 0);
    vault.lock(LockReason::Idle, 1);
    let jobs = [
        Job::Lock(LockReason::Admin, 50, false),
        Job::Unlock(UnlockProgress::Continue(UnlockUnit::start(USER)), 60),
    ];
    let orders = every_job_order(vault, None, jobs, vec![], &|end, order| {
        assert_eq!(end.locked_at.is_some(), end.lock_reason.is_some());
        if order == [0, 1] {
            assert_eq!((end.locked_at, end.lock_reason), (None, None));
            assert_eq!(end.updated_at, 60);
        } else {
            assert_eq!(order, [1, 0]);
            assert_eq!((end.locked_at, end.lock_reason), (Some(50), Some(LockReason::Admin)));
            assert_eq!(end.updated_at, 50);
        }
    });
    assert!(orders > 2);
}

#[test]
fn two_unlocks_at_the_same_time_leave_the_vault_unlocked() {
    let mut vault = Vault::new(100, USER, 0);
    vault.lock(LockReason::Logout, 1);
    let jobs = [
        Job::Unlock(UnlockProgress::Continue(UnlockUnit::start(USER)), 60),
        Job::Unlock(UnlockProgress::Continue(UnlockUnit::start(USER)), 70),
    ];
    every_job_order(vault, None, jobs, vec![], &|end, order| {
        assert_eq!((end.locked_at, end.lock_reason), (None, None));
        let first_now = if order[0] == 0 { 60 } else { 70 };
        assert_eq!(end.updated_at, first_now);
    });
}

#[test]
fn three_jobs_at_the_same_time_end_as_the_last_leaves_the_vault() {
    let vault = Vault::new(100, USER, 0);
    let jobs = [
        Job::Lock(LockReason::Admin, 50, false),
        Job::Unlock(UnlockProgress::Continue(UnlockUnit::start(USER)), 60),
        Job::Lock(LockReason::Idle, 70, false),
    ];
    let orders = every_job_order(vault, None, jobs, vec![], &|end, order| {
        assert_eq!(order.len(), 3);
        assert_eq!(end.locked_at.is_some(), end.lock_reason.is_some());
        let expected = match order[2] {
            0 => (Some(50), Some(LockReason::Admin)),
            1 => (None, None),
            _ => (Some(70), Some(LockReason::Idle)),
        };
        assert_eq!((end.locked_at, end.lock_reason), expected);
    });
    assert!(orders > 6);
}
