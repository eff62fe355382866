use vault_market::catalogue::{available_items, items_in_category};
use vault_market::error::AppError;
use vault_market::market_models::{
    MarketItem, MarketRecommendation, MarketTransaction, TransactionKind, UserMarketPurchase,
    UserReward, UserWallet, WalletResponse,
};
use vault_market::market_repos::MarketRepo;
use vault_market::named::{from_str, to_string, NamedEnum};
use vault_market::order::list_desc;
use vault_market::purchase::{plan_purchase, MarketError, PurchasePlan};
use vault_market::vault_repo::StoreError;

const USER: u128 = 1;
const OTHER: u128 = 2;
const SWORD: u128 = 10;
const SHIELD: u128 = 11;

fn item(id: u128, name: &str, price: i32) -> MarketItem {
    MarketItem {
        id,
        name: name.to_string(),
        description: None,
        cost_coins: price,
        category: Some("gear".to_string()),
        rarity: Some("common".to_string()),
        icon_url: None,
        available: true,
        available_from: None,
        available_until: None,
        created_at: 0,
        updated_at: 0,
    }
}

fn funded(coins: i32) -> MarketRepo {
    let mut repo = MarketRepo::new();
    assert!(repo.add_item(item(SWORD, "sword", 30)));
    assert!(repo.add_item(item(SHIELD, "shield", 80)));
    repo.get_or_create_wallet(USER, 500, 0);
    if coins > 0 {
        repo.record_transaction(USER, TransactionKind::Earn, coins, "seed", 600, 0).unwrap();
    }
    repo
}

fn amounts(repo: &MarketRepo, user: u128) -> (i32, i32, i32) {
    let w = repo.get_wallet(user).unwrap();
    (w.total_coins, w.earned_coins, w.spent_coins)
}

fn ledger_balance(repo: &MarketRepo, user: u128) -> i64 {
    repo.transactions()
        .iter()
        .filter(|t| t.user_id == user)
        .map(|t| match t.transaction_type {
            TransactionKind::Earn | TransactionKind::Refund => t.coins_amount as i64,
            TransactionKind::Spend => -(t.coins_amount as i64),
        })
        .sum()
}

#[test]
fn purchase_scenario() {
    let mut repo = funded(100);
    assert_eq!(amounts(&repo, USER), (100, 100, 0));
    let row = repo.purchase_item(USER, SWORD, 2, 700, 800, 5).unwrap();
    assert_eq!(
        row,
        UserMarketPurchase {
            id: 700,
            user_id: USER,
            item_id: SWORD,
            quantity: 2,
            cost_paid_coins: 60,
            purchased_at: 5
        }
    );
    assert_eq!(amounts(&repo, USER), (40, 100, 60));
    let spends: Vec<&MarketTransaction> = repo
        .transactions()
        .iter()
        .filter(|t| t.transaction_type == TransactionKind::Spend)
        .collect();
    assert_eq!(spends.len(), 1);
    assert_eq!(
        *spends[0],
        MarketTransaction {
            id: 800,
            user_id: USER,
            transaction_type: TransactionKind::Spend,
            coins_amount: 60,
            reason: Some("purchase".to_string()),
            created_at: 5
        }
    );
    assert_eq!(repo.get_user_purchases(USER), vec![row]);
    assert_eq!(ledger_balance(&repo, USER), 40);
}

#[test]
fn insufficient_funds_changes_nothing() {
    let mut repo = funded(100);
    let ledger_before = repo.transactions().clone();
    let r = repo.purchase_item(USER, SHIELD, 2, 700, 800, 5);
    assert_eq!(r, Err(MarketError::InsufficientFunds));
    assert_eq!(amounts(&repo, USER), (100, 100, 0));
    assert_eq!(repo.get_wallet(USER).unwrap().updated_at, 0);
    assert_eq!(*repo.transactions(), ledger_before);
    assert!(repo.get_user_purchases(USER).is_empty());
}

#[test]
fn purchase_needs_exactly_the_cost() {
    let mut repo = funded(60);
    assert!(repo.purchase_item(USER, SWORD, 2, 700, 800, 5).is_ok());
    assert_eq!(amounts(&repo, USER), (0, 60, 60));
    let mut repo = funded(59);
    assert_eq!(
        repo.purchase_item(USER, SWORD, 2, 700, 800, 5),
        Err(MarketError::InsufficientFunds)
    );
}

#[test]
fn repeated_purchase_accumulates_on_one_row() {
    let mut repo = funded(200);
    let first = repo.purchase_item(USER, SWORD, 2, 700, 800, 5).unwrap();
    let second = repo.purchase_item(USER, SWORD, 3, 701, 801, 9).unwrap();
    assert_eq!(second.id, first.id);
    assert_eq!(second.purchased_at, 5);
    assert_eq!(second.quantity, 5);
    assert_eq!(second.cost_paid_coins, 150);
    assert_eq!(repo.get_user_purchases(USER), vec![second]);
    assert_eq!(amounts(&repo, USER), (50, 200, 150));
    assert_eq!(repo.transactions().len(), 3);
    assert_eq!(ledger_balance(&repo, USER), 50);
}

#[test]
fn second_of_two_purchases_beyond_the_balance_fails() {
    let mut repo = funded(100);
    assert!(repo.purchase_item(USER, SHIELD, 1, 700, 800, 5).is_ok());
    assert_eq!(
        repo.purchase_item(USER, SWORD, 1, 701, 801, 5),
        Err(MarketError::InsufficientFunds)
    );
    assert_eq!(amounts(&repo, USER), (20, 100, 80));

    let mut repo = funded(100);
    assert!(repo.purchase_item(USER, SWORD, 1, 701, 801, 5).is_ok());
    assert_eq!(
        repo.purchase_item(USER, SHIELD, 1, 700, 800, 5),
        Err(MarketError::InsufficientFunds)
    );
    assert_eq!(amounts(&repo, USER), (70, 100, 30));
}

#[test]
fn both_purchases_fail_when_each_exceeds_the_balance() {
    let mut repo = funded(20);
    assert_eq!(
        repo.purchase_item(USER, SWORD, 1, 700, 800, 5),
        Err(MarketError::InsufficientFunds)
    );
    assert_eq!(
        repo.purchase_item(USER, SHIELD, 1, 701, 801, 5),
        Err(MarketError::InsufficientFunds)
    );
    assert_eq!(amounts(&repo, USER), (20, 20, 0));
}

#[test]
fn purchase_errors() {
    let mut repo = funded(100);
    assert_eq!(repo.purchase_item(USER, SWORD, 0, 1, 2, 3), Err(MarketError::InvalidQuantity));
    assert_eq!(repo.purchase_item(USER, SWORD, -1, 1, 2, 3), Err(MarketError::InvalidQuantity));
    assert_eq!(repo.purchase_item(USER, 999, 1, 1, 2, 3), Err(MarketError::ItemNotFound));
    assert_eq!(repo.purchase_item(OTHER, SWORD, 1, 1, 2, 3), Err(MarketError::WalletNotFound));
    assert_eq!(
        repo.purchase_item(USER, SWORD, i32::MAX, 1, 2, 3),
        Err(MarketError::InsufficientFunds)
    );
    assert_eq!(amounts(&repo, USER), (100, 100, 0));
    assert_eq!(repo.transactions().len(), 1);
}

#[test]
fn quantity_counter_out_of_range() {
    let mut repo = MarketRepo::new();
    assert!(repo.add_item(item(SWORD, "gift", 0)));
    repo.get_or_create_wallet(USER, 500, 0);
    let row = repo.purchase_item(USER, SWORD, i32::MAX, 1, 2, 3).unwrap();
    assert_eq!(row.quantity, i32::MAX);
    assert_eq!(repo.purchase_item(USER, SWORD, 1, 4, 5, 6), Err(MarketError::OutOfRange));
    assert_eq!(repo.get_user_purchases(USER), vec![row]);
    assert_eq!(repo.transactions().len(), 1);
}

#[test]
fn negative_price_is_refused() {
    let mut repo = MarketRepo::new();
    assert!(!repo.add_item(item(SWORD, "trap", -5)));
    repo.get_or_create_wallet(USER, 500, 0);
    assert_eq!(repo.purchase_item(USER, SWORD, 1, 1, 2, 3), Err(MarketError::ItemNotFound));
    let w = UserWallet::new(500, USER, 0);
    assert_eq!(
        plan_purchase(USER, SWORD, 1, Some(-5), Some(w), None, 1, 3),
        Err(MarketError::OutOfRange)
    );
}

#[test]
fn plan_of_a_purchase() {
    let w = UserWallet {
        id: 500,
        user_id: USER,
        total_coins: 100,
        earned_coins: 130,
        spent_coins: 30,
        updated_at: 1,
        created_at: 0,
    };
    let held = UserMarketPurchase {
        id: 9,
        user_id: USER,
        item_id: SWORD,
        quantity: 1,
        cost_paid_coins: 30,
        purchased_at: 1,
    };
    let plan = plan_purchase(USER, SWORD, 3, Some(30), Some(w), Some(held), 77, 8).unwrap();
    assert_eq!(
        plan,
        PurchasePlan {
            total_cost: 90,
            wallet: UserWallet { total_coins: 10, spent_coins: 120, updated_at: 8, ..w },
            purchase: UserMarketPurchase { quantity: 4, cost_paid_coins: 120, ..held },
        }
    );
    assert_eq!(
        plan_purchase(USER, SWORD, 4, Some(30), Some(w), Some(held), 77, 8),
        Err(MarketError::InsufficientFunds)
    );
    assert_eq!(
        plan_purchase(USER, SWORD, 1, None, Some(w), None, 77, 8),
        Err(MarketError::ItemNotFound)
    );
    assert_eq!(
        plan_purchase(USER, SWORD, 1, Some(30), None, None, 77, 8),
        Err(MarketError::WalletNotFound)
    );
    assert_eq!(
        plan_purchase(USER, SWORD, 0, None, None, None, 77, 8),
        Err(MarketError::InvalidQuantity)
    );
}

#[test]
fn market_errors_as_failures() {
    assert_eq!(
        MarketError::InvalidQuantity.into_app_error(),
        AppError::Validation("Quantity must be positive".to_string())
    );
    assert_eq!(
        MarketError::ItemNotFound.into_app_error(),
        AppError::NotFound("Market item not found".to_string())
    );
    assert_eq!(
        MarketError::WalletNotFound.into_app_error(),
        AppError::NotFound("Wallet not found".to_string())
    );
    assert_eq!(
        MarketError::InsufficientFunds.into_app_error(),
        AppError::BadRequest("Insufficient coins".to_string())
    );
    assert_eq!(
        MarketError::OutOfRange.into_app_error(),
        AppError::Internal("Amount out of range".to_string())
    );
}

#[test]
fn wallet_is_created_once() {
    let mut repo = MarketRepo::new();
    assert_eq!(repo.get_wallet(USER), None);
    let w = repo.get_or_create_wallet(USER, 500, 3);
    assert_eq!(
        w,
        UserWallet {
            id: 500,
            user_id: USER,
            total_coins: 0,
            earned_coins: 0,
            spent_coins: 0,
            updated_at: 3,
            created_at: 3
        }
    );
    repo.record_transaction(USER, TransactionKind::Earn, 25, "bonus", 600, 4).unwrap();
    let again = repo.get_or_create_wallet(USER, 501, 9);
    assert_eq!(again.id, 500);
    assert_eq!(again.total_coins, 25);
    assert_eq!(again.created_at, 3);
    assert_eq!(again.updated_at, 9);
    assert_eq!(repo.get_wallet(USER), Some(again));
    assert_eq!(
        again.response(),
        WalletResponse { total_coins: 25, earned_coins: 25, spent_coins: 0 }
    );
}

#[test]
fn booking_formulas() {
    let w = UserWallet::new(1, USER, 0);
    let w = w.book(TransactionKind::Earn, 100, 1).unwrap();
    assert_eq!((w.total_coins, w.earned_coins, w.spent_coins, w.updated_at), (100, 100, 0, 1));
    let w = w.book(TransactionKind::Spend, 60, 2).unwrap();
    assert_eq!((w.total_coins, w.earned_coins, w.spent_coins, w.updated_at), (40, 100, 60, 2));
    let w = w.book(TransactionKind::Refund, 10, 3).unwrap();
    assert_eq!((w.total_coins, w.earned_coins, w.spent_coins, w.updated_at), (50, 100, 50, 3));
    assert_eq!(w.book(TransactionKind::Spend, 51, 4), None);
    assert_eq!(w.book(TransactionKind::Refund, 51, 4), None);
    assert_eq!(w.book(TransactionKind::Earn, -1, 4), None);
    assert_eq!(w.book(TransactionKind::Earn, i32::MAX - 99, 4), None);
    assert!(w.book(TransactionKind::Earn, i32::MAX - 100, 4).is_some());
    assert!(w.book(TransactionKind::Spend, 0, 4).is_some());
}

#[test]
fn record_transaction_errors_change_nothing() {
    let mut repo = funded(10);
    assert_eq!(
        repo.record_transaction(OTHER, TransactionKind::Earn, 5, "x", 1, 1),
        Err(MarketError::WalletNotFound)
    );
    assert_eq!(
        repo.record_transaction(USER, TransactionKind::Spend, 11, "x", 1, 1),
        Err(MarketError::InsufficientFunds)
    );
    assert_eq!(
        repo.record_transaction(USER, TransactionKind::Spend, -1, "x", 1, 1),
        Err(MarketError::OutOfRange)
    );
    assert_eq!(
        repo.record_transaction(USER, TransactionKind::Refund, 1, "x", 1, 1),
        Err(MarketError::OutOfRange)
    );
    assert_eq!(
        repo.record_transaction(USER, TransactionKind::Earn, i32::MAX, "x", 1, 1),
        Err(MarketError::OutOfRange)
    );
    assert_eq!(amounts(&repo, USER), (10, 10, 0));
    assert_eq!(repo.transactions().len(), 1);
    let w = repo.record_transaction(USER, TransactionKind::Spend, 4, "fee", 9, 7).unwrap();
    assert_eq!((w.total_coins, w.earned_coins, w.spent_coins), (6, 10, 4));
    let w = repo.record_transaction(USER, TransactionKind::Refund, 3, "oops", 10, 8).unwrap();
    assert_eq!((w.total_coins, w.earned_coins, w.spent_coins), (9, 10, 1));
    assert_eq!(ledger_balance(&repo, USER), 9);
    let last = repo.transactions().last().unwrap();
    assert_eq!(last.reason.as_deref(), Some("oops"));
    assert_eq!(last.transaction_type.as_str(), "refund");
}

fn reward(id: u128, user: u128, created_at: i64) -> UserReward {
    UserReward {
        id,
        user_id: user,
        reward_type: "daily".to_string(),
        coins_earned: 5,
        claimed: false,
        claimed_at: None,
        created_at,
    }
}

#[test]
fn reward_is_claimed_once() {
    let mut repo = MarketRepo::new();
    repo.add_reward(reward(1, USER, 10));
    repo.add_reward(reward(2, USER, 20));
    assert!(repo.claim_reward(1, 30));
    assert!(!repo.claim_reward(1, 31));
    assert!(!repo.claim_reward(3, 32));
    let rows = repo.get_user_rewards(USER);
    assert_eq!(rows.len(), 2);
    assert_eq!(rows[0].id, 2);
    assert!(!rows[0].claimed);
    assert_eq!(rows[0].claimed_at, None);
    assert_eq!(rows[1].id, 1);
    assert!(rows[1].claimed);
    assert_eq!(rows[1].claimed_at, Some(30));
    assert_eq!(rows[1].reward_type, "daily");
}

#[test]
fn rewards_are_listed_latest_first() {
    let mut repo = MarketRepo::new();
    repo.add_reward(reward(1, USER, 10));
    repo.add_reward(reward(2, OTHER, 50));
    repo.add_reward(reward(3, USER, 30));
    repo.add_reward(reward(4, USER, 10));
    repo.add_reward(reward(5, USER, 20));
    let ids: Vec<u128> = repo.get_user_rewards(USER).iter().map(|r| r.id).collect();
    assert_eq!(ids, vec![3, 5, 1, 4]);
    assert!(repo.get_user_rewards(99).is_empty());
}

#[test]
fn purchases_are_listed_latest_first() {
    let mut repo = funded(1000);
    repo.get_or_create_wallet(OTHER, 501, 0);
    repo.record_transaction(OTHER, TransactionKind::Earn, 1000, "seed", 601, 0).unwrap();
    repo.purchase_item(USER, SWORD, 1, 700, 800, 5).unwrap();
    repo.purchase_item(OTHER, SWORD, 1, 701, 801, 6).unwrap();
    repo.purchase_item(USER, SHIELD, 1, 702, 802, 7).unwrap();
    let ids: Vec<u128> = repo.get_user_purchases(USER).iter().map(|p| p.id).collect();
    assert_eq!(ids, vec![702, 700]);
    let ids: Vec<u128> = repo.get_user_purchases(OTHER).iter().map(|p| p.id).collect();
    assert_eq!(ids, vec![701]);
}

fn recommendation(id: u128, user: u128, score: Option<u32>) -> MarketRecommendation {
    MarketRecommendation { id, user_id: user, item_id: SWORD, score, reason: None, computed_at: 0 }
}

#[test]
fn recommendations_by_score_with_unscored_last() {
    let mut repo = MarketRepo::new();
    repo.add_recommendation(recommendation(1, USER, Some(500_000)));
    repo.add_recommendation(recommendation(2, USER, None));
    repo.add_recommendation(recommendation(3, USER, Some(900_000)));
    repo.add_recommendation(recommendation(4, OTHER, Some(1_000_000)));
    repo.add_recommendation(recommendation(5, USER, Some(0)));
    repo.add_recommendation(recommendation(6, USER, Some(500_000)));
    repo.add_recommendation(recommendation(7, USER, None));
    let ids = |limit: i64| -> Vec<u128> {
        repo.get_recommendations(USER, limit).unwrap().iter().map(|r| r.id).collect()
    };
    assert_eq!(ids(10), vec![3, 1, 6, 5, 2, 7]);
    assert_eq!(ids(6), vec![3, 1, 6, 5, 2, 7]);
    assert_eq!(ids(2), vec![3, 1]);
    assert_eq!(ids(0), Vec::<u128>::new());
    assert_eq!(ids(i64::MAX), vec![3, 1, 6, 5, 2, 7]);
    assert_eq!(repo.get_recommendations(USER, -1).err(), Some(StoreError::Other));
}

#[test]
fn available_items_respect_flag_and_window() {
    let mut repo = MarketRepo::new();
    let mut always = item(1, "always", 1);
    always.category = None;
    let mut off = item(2, "off", 1);
    off.available = false;
    let mut future = item(3, "future", 1);
    future.available_from = Some(100);
    let mut past = item(4, "past", 1);
    past.available_until = Some(100);
    let mut window = item(5, "window", 1);
    window.available_from = Some(50);
    window.available_until = Some(150);
    window.category = Some("pets".to_string());
    for i in [always, off, future, past, window] {
        assert!(repo.add_item(i));
    }
    let ids = |now: i64| -> Vec<u128> {
        repo.get_available_items(now).iter().map(|i| i.id).collect()
    };
    assert_eq!(ids(0), vec![4, 1]);
    assert_eq!(ids(49), vec![4, 1]);
    assert_eq!(ids(50), vec![4, 5, 1]);
    assert_eq!(ids(99), vec![4, 5, 1]);
    assert_eq!(ids(100), vec![3, 5, 1]);
    assert_eq!(ids(149), vec![3, 5, 1]);
    assert_eq!(ids(150), vec![3, 1]);
    let gear: Vec<u128> = repo.get_items_by_category("gear").iter().map(|i| i.id).collect();
    assert_eq!(gear, vec![3, 4]);
    let pets: Vec<u128> = repo.get_items_by_category("pets").iter().map(|i| i.id).collect();
    assert_eq!(pets, vec![5]);
    assert!(repo.get_items_by_category("gea").is_empty());
    assert!(repo.get_items_by_category("").is_empty());
    assert!(item(9, "x", 1).is_available(i64::MIN));
}

fn placed(id: u128, category: Option<&str>, name: &str) -> MarketItem {
    let mut i = item(id, name, 1);
    i.category = category.map(|c| c.to_string());
    i
}

#[test]
fn items_are_shown_by_category_then_name() {
    let mut repo = MarketRepo::new();
    for i in [
        placed(1, Some("pets"), "b"),
        placed(2, Some("pets"), "a"),
        placed(3, None, "a"),
        placed(4, Some("gear"), "z"),
        placed(5, Some("pets"), "a"),
        placed(6, None, "A"),
        placed(7, Some("gear"), "ab"),
        placed(8, Some("gear"), "a"),
        placed(9, Some("Pets"), "z"),
        placed(10, Some(""), "m"),
    ] {
        assert!(repo.add_item(i));
    }
    let ids: Vec<u128> = repo.get_available_items(0).iter().map(|i| i.id).collect();
    assert_eq!(ids, vec![10, 9, 8, 7, 4, 2, 5, 1, 6, 3]);
    let pets: Vec<u128> = repo.get_items_by_category("pets").iter().map(|i| i.id).collect();
    assert_eq!(pets, vec![2, 5, 1]);
    let none: Vec<u128> = repo.get_items_by_category("none").iter().map(|i| i.id).collect();
    assert!(none.is_empty());
}

#[test]
fn two_items_named_b_and_a_come_out_as_a_then_b() {
    let items = vec![placed(1, Some("gear"), "b"), placed(2, Some("gear"), "a")];
    let ids: Vec<u128> = available_items(&items, 0).iter().map(|i| i.id).collect();
    assert_eq!(ids, vec![2, 1]);
    let ids: Vec<u128> = items_in_category(&items, "gear").iter().map(|i| i.id).collect();
    assert_eq!(ids, vec![2, 1]);
}

#[test]
fn listing_order() {
    assert_eq!(list_desc(&vec![]), Vec::<usize>::new());
    assert_eq!(list_desc(&vec![None, None]), Vec::<usize>::new());
    assert_eq!(
        list_desc(&vec![Some(1), None, Some(3), Some(1), Some(2), Some(3)]),
        vec![2, 5, 4, 0, 3]
    );
    assert_eq!(list_desc(&vec![Some(i64::MIN), Some(i64::MAX), Some(0)]), vec![1, 2, 0]);
}

#[test]
fn transaction_kind_names() {
    assert_eq!(TransactionKind::Earn.as_str(), "earn");
    assert_eq!(TransactionKind::Spend.as_str(), "spend");
    assert_eq!(TransactionKind::Refund.as_str(), "refund");
    for k in TransactionKind::variants() {
        assert_eq!(from_str::<TransactionKind>(k.as_str()), Ok(k));
        assert_eq!(to_string(&k), k.as_str());
    }
    assert_eq!(
        from_str::<TransactionKind>("gift"),
        Err("Unknown TransactionKind: gift".to_string())
    );
    assert_eq!(from_str::<TransactionKind>("Earn").ok(), None);
}
