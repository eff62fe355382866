//! The decision of a purchase: whether it goes through, and what is
//! written if it does.
//!
//! The decision is taken on the rows as they were read inside the unit of
//! work that holds the wallet. Nothing is written unless the whole purchase
//! goes through.

use vstd::prelude::*;
use crate::error::AppError;
use crate::market_models::TransactionKind;
use crate::market_models::UserMarketPurchase;
use crate::market_models::UserWallet;

verus! {

/// Why a change to a wallet or a purchase was refused.
#[derive(Debug, Clone, Copy, PartialEq, Eq, Structural)]
pub enum MarketError {
    /// The quantity is zero or negative.
    InvalidQuantity,
    /// The catalogue has no such item.
    ItemNotFound,
    /// The user has no wallet.
    WalletNotFound,
    /// The wallet holds less than the purchase costs.
    InsufficientFunds,
    /// An amount is negative or a counter would leave its range.
    OutOfRange,
}

/// What a purchase that goes through writes.
#[derive(Debug, Clone, Copy, PartialEq, Eq, Structural)]
pub struct PurchasePlan {
    /// The price of the item times the quantity.
    pub total_cost: i32,
    /// The wallet after the coins were taken.
    pub wallet: UserWallet,
    /// The purchase row after the purchase was added to it.
    pub purchase: UserMarketPurchase,
}

/// The purchase row of `user` and `item_id` after `quantity` more were
/// bought for `total_cost`: the existing row with both added, or a new row
/// under `purchase_id` where there was none.
pub open spec fn upserted(
    existing: Option<UserMarketPurchase>,
    user_id: u128,
    item_id: u128,
    quantity: i32,
    total_cost: i32,
    purchase_id: u128,
    now: i64,
) -> UserMarketPurchase {
    match existing {
        Some(p) => UserMarketPurchase {
            quantity: (p.quantity + quantity) as i32,
            cost_paid_coins: (p.cost_paid_coins + total_cost) as i32,
            ..p
        },
        None => UserMarketPurchase {
            id: purchase_id,
            user_id,
            item_id,
            quantity,
            cost_paid_coins: total_cost,
            purchased_at: now,
        },
    }
}

/// Whether a purchase goes through, and for how much.
///
/// The checks come in this order: the quantity is positive; the item
/// exists; the wallet exists; the wallet holds the price times the
/// quantity; the price is not negative and the counters of the purchase row
/// stay in range.
pub open spec fn purchase_cost(
    quantity: i32,
    price: Option<i32>,
    wallet: Option<UserWallet>,
    existing: Option<UserMarketPurchase>,
) -> Result<i32, MarketError> {
    if quantity <= 0 {
        Err(MarketError::InvalidQuantity)
    } else if price is None {
        Err(MarketError::ItemNotFound)
    } else if wallet is None {
        Err(MarketError::WalletNotFound)
    } else if wallet->0.total_coins < price->0 * quantity {
        Err(MarketError::InsufficientFunds)
    } else if price->0 < 0 {
        Err(MarketError::OutOfRange)
    } else if existing matches Some(p) && (p.quantity + quantity > i32::MAX || p.cost_paid_coins
        + price->0 * quantity > i32::MAX || p.quantity + quantity < i32::MIN || p.cost_paid_coins
        + price->0 * quantity < i32::MIN) {
        Err(MarketError::OutOfRange)
    } else {
        Ok((price->0 * quantity) as i32)
    }
}

/// What a purchase writes if it goes through, or why it is refused.
pub open spec fn plan_spec(
    user_id: u128,
    item_id: u128,
    quantity: i32,
    price: Option<i32>,
    wallet: Option<UserWallet>,
    existing: Option<UserMarketPurchase>,
    purchase_id: u128,
    now: i64,
) -> Result<PurchasePlan, MarketError> {
    match purchase_cost(quantity, price, wallet, existing) {
        Ok(total_cost) => Ok(
            PurchasePlan {
                total_cost,
                wallet: wallet->0.booked(TransactionKind::Spend, total_cost, now),
                purchase: upserted(
                    existing,
                    user_id,
                    item_id,
                    quantity,
                    total_cost,
                    purchase_id,
                    now,
                ),
            },
        ),
        Err(e) => Err(e),
    }
}

/// Decides a purchase of `quantity` of the item `item_id` by `user_id`.
///
/// `price` is the price of the item, `wallet` the user's wallet and
/// `existing` the row of what the user already holds of the item, each as
/// the store has it or absent. A purchase that is refused writes nothing.
pub fn plan_purchase(
    user_id: u128,
    item_id: u128,
    quantity: i32,
    price: Option<i32>,
    wallet: Option<UserWallet>,
    existing: Option<UserMarketPurchase>,
    purchase_id: u128,
    now: i64,
) -> (r: Result<PurchasePlan, MarketError>)
    requires
        wallet matches Some(w) ==> w.wf(),
    ensures
        r == plan_spec(user_id, item_id, quantity, price, wallet, existing, purchase_id, now),
        r matches Err(e) ==> purchase_cost(quantity, price, wallet, existing) == Err::<i32, _>(e),
        r matches Ok(plan) ==> {
            &&& purchase_cost(quantity, price, wallet, existing) == Ok::<_, MarketError>(
                plan.total_cost,
            )
            &&& plan.total_cost == price->0 * quantity
            &&& 0 <= plan.total_cost <= wallet->0.total_coins
            &&& plan.wallet == wallet->0.booked(TransactionKind::Spend, plan.total_cost, now)
            &&& plan.wallet.wf()
            &&& plan.wallet.total_coins == wallet->0.total_coins - plan.total_cost
            &&& plan.wallet.spent_coins == wallet->0.spent_coins + plan.total_cost
            &&& plan.wallet.earned_coins == wallet->0.earned_coins
            &&& plan.purchase == upserted(
                existing,
                user_id,
                item_id,
                quantity,
                plan.total_cost,
                purchase_id,
                now,
            )
        },
{
    if quantity <= 0 {
        return Err(MarketError::InvalidQuantity);
    }
    let price = match price {
        Some(p) => p,
        None => {
            return Err(MarketError::ItemNotFound);
        },
    };
    let wallet = match wallet {
        Some(w) => w,
        None => {
            return Err(MarketError::WalletNotFound);
        },
    };
    assert(-0x4000_0000_0000_0000 <= (price as int) * (quantity as int) <= 0x4000_0000_0000_0000)
        by (nonlinear_arith)
        requires
            -0x8000_0000 <= price <= 0x7fff_ffff,
            0 < quantity <= 0x7fff_ffff,
    ;
    let cost: i64 = (price as i64) * (quantity as i64);
    if (wallet.total_coins as i64) < cost {
        return Err(MarketError::InsufficientFunds);
    }
    if price < 0 {
        return Err(MarketError::OutOfRange);
    }
    assert(0 <= (price as int) * (quantity as int)) by (nonlinear_arith)
        requires
            0 <= price,
            0 < quantity,
    ;
    let total_cost: i32 = cost as i32;
    let purchase = match existing {
        Some(p) => {
            let q: i64 = p.quantity as i64 + quantity as i64;
            let c: i64 = p.cost_paid_coins as i64 + cost;
            if q > i32::MAX as i64 || c > i32::MAX as i64 || q < i32::MIN as i64 || c
                < i32::MIN as i64 {
                return Err(MarketError::OutOfRange);
            }
            UserMarketPurchase { quantity: q as i32, cost_paid_coins: c as i32, ..p }
        },
        None => UserMarketPurchase {
            id: purchase_id,
            user_id,
            item_id,
            quantity,
            cost_paid_coins: total_cost,
            purchased_at: now,
        },
    };
    let after = UserWallet {
        total_coins: wallet.total_coins - total_cost,
        spent_coins: wallet.spent_coins + total_cost,
        updated_at: now,
        ..wallet
    };
    Ok(PurchasePlan { total_cost, wallet: after, purchase })
}

/// `a` is the failure that the caller is told of when a change is refused
/// for the reason `e`.
pub open spec fn is_failure_of(a: AppError, e: MarketError) -> bool {
    match e {
        MarketError::InvalidQuantity => a matches AppError::Validation(m) && m@
            == "Quantity must be positive"@,
        MarketError::ItemNotFound => a matches AppError::NotFound(m) && m@
            == "Market item not found"@,
        MarketError::WalletNotFound => a matches AppError::NotFound(m) && m@ == "Wallet not found"@,
        MarketError::InsufficientFunds => a matches AppError::BadRequest(m) && m@
            == "Insufficient coins"@,
        MarketError::OutOfRange => a matches AppError::Internal(m) && m@ == "Amount out of range"@,
    }
}

impl MarketError {
    /// The failure as the caller is told of it. A refusal that the caller
    /// can mend says what to mend; want of funds is a refusal of that kind
    /// and not an internal failure.
    pub fn into_app_error(self) -> (r: AppError)
        ensures
            is_failure_of(r, self),
    {
        match self {
            MarketError::InvalidQuantity => AppError::validation("Quantity must be positive"),
            MarketError::ItemNotFound => AppError::not_found("Market item not found"),
            MarketError::WalletNotFound => AppError::not_found("Wallet not found"),
            MarketError::InsufficientFunds => AppError::bad_request("Insufficient coins"),
            MarketError::OutOfRange => AppError::internal("Amount out of range"),
        }
    }
}

} // verus!
