//! What holds of every run of purchases and claims against the tables of
//! the market.

use vstd::prelude::*;
use crate::market_models::TransactionKind;
use crate::market_models::UserMarketPurchase;
use crate::market_models::UserReward;
use crate::market_models::UserWallet;
use crate::market_repos::balance;
use crate::market_repos::claimed_row;
use crate::market_repos::is_claimable;
use crate::market_repos::lemma_purchase_index;
use crate::market_repos::purchase_index;
use crate::market_repos::purchase_of;
use crate::market_repos::MarketState;
use crate::purchase::MarketError;

verus! {

/// Booking an entry that can be booked keeps the wallet in order: no amount
/// is negative, what is there is what was earned less what was spent, and
/// what is there has moved by the entry's signed amount.
pub proof fn lemma_booking_keeps_wallet(w: UserWallet, kind: TransactionKind, amount: i32, now: i64)
    requires
        w.wf(),
        w.can_book(kind, amount),
    ensures
        w.booked(kind, amount, now).wf(),
        w.booked(kind, amount, now).total_coins == w.total_coins + kind.signed(amount as int),
        w.booked(kind, amount, now).user_id == w.user_id,
{
}

/// Where the tables are in order, the ledger says of every user exactly
/// what the wallet holds, and no wallet holds less than nothing.
pub proof fn lemma_ledger_reconciles(s: MarketState, user: u128)
    requires
        s.wf(),
        s.wallets.contains_key(user),
    ensures
        balance(s.transactions, user) == s.wallets[user].total_coins,
        s.wallets[user].total_coins == s.wallets[user].earned_coins - s.wallets[user].spent_coins,
        s.wallets[user].total_coins >= 0,
{
}

/// A purchase that went through leaves the tables in order.
pub proof fn lemma_purchase_keeps_books(
    s0: MarketState,
    s1: MarketState,
    user: u128,
    item: u128,
    quantity: i32,
    cost: i32,
    row: UserMarketPurchase,
    purchase_id: u128,
    transaction_id: u128,
    now: i64,
)
    requires
        s0.wf(),
        s0.purchase_decision(user, item, quantity) == Ok::<i32, MarketError>(cost),
        s0.purchased(s1, user, item, quantity, cost, row, purchase_id, transaction_id, now),
    ensures
        s1.wf(),
        s1.wallets.contains_key(user),
        s1.wallets[user].total_coins == s0.wallets[user].total_coins - cost,
        s1.wallets[user].total_coins >= 0,
        purchase_of(s1.purchases, user, item) == Some(row),
        forall|u: u128, i: u128|
            !(u == user && i == item) ==> purchase_of(s1.purchases, u, i) == purchase_of(
                s0.purchases,
                u,
                i,
            ),
{
    lemma_purchase_index(s0.purchases, user, item, 0);
    assert(s0.wallets.contains_key(user));
    assert(s1.transactions.last().user_id == user);
    assert forall|u: u128| #[trigger]
        balance(s1.transactions, u) == if s1.wallets.contains_key(u) {
            s1.wallets[u].total_coins as int
        } else {
            0
        } by {
        assert(balance(s0.transactions, u) == if s0.wallets.contains_key(u) {
            s0.wallets[u].total_coins as int
        } else {
            0
        });
    }
    assert forall|a: int, b: int| 0 <= a < b < s1.purchases.len() implies !((
    #[trigger] s1.purchases[a]).user_id == (#[trigger] s1.purchases[b]).user_id
        && s1.purchases[a].item_id == s1.purchases[b].item_id) by {
        if b < s0.purchases.len() {
            assert(!(s0.purchases[a].user_id == s0.purchases[b].user_id && s0.purchases[a].item_id
                == s0.purchases[b].item_id));
        } else {
            assert(!(s0.purchases[a].user_id == user && s0.purchases[a].item_id == item));
        }
    }
    assert forall|u: u128, i: u128| purchase_of(s1.purchases, u, i) == if u == user && i == item {
        Some(row)
    } else {
        purchase_of(s0.purchases, u, i)
    } by {
        lemma_index_after_write(s0.purchases, s1.purchases, user, item, row, u, i, 0);
    }
}

/// Looking for the row of `u` and `i` after the row of `user` and `item`
/// was written finds the same place as before, and the written row where
/// the two pairs are the same.
proof fn lemma_index_after_write(
    before: Seq<UserMarketPurchase>,
    after: Seq<UserMarketPurchase>,
    user: u128,
    item: u128,
    row: UserMarketPurchase,
    u: u128,
    i: u128,
    from: int,
)
    requires
        0 <= from,
        row.user_id == user,
        row.item_id == item,
        after == crate::market_repos::purchases_with(before, user, item, row),
    ensures
        !(u == user && i == item) ==> purchase_index(after, u, i, from) == purchase_index(
            before,
            u,
            i,
            from,
        ) && (purchase_index(before, u, i, from) matches Some(k) ==> after[k] == before[k]),
        u == user && i == item && from == 0 ==> (purchase_index(after, u, i, 0) matches Some(k)
            && after[k] == row),
    decreases after.len() - from,
{
    lemma_purchase_index(before, user, item, 0);
    if u == user && i == item {
        if from == 0 {
            match purchase_index(before, user, item, 0) {
                Some(k) => {
                    lemma_index_same_pair(before, after, user, item, k, 0);
                },
                None => {
                    lemma_index_found_at_end(before, after, user, item, 0);
                },
            }
        }
    } else if from < after.len() {
        lemma_index_after_write(before, after, user, item, row, u, i, from + 1);
        lemma_purchase_index(before, u, i, from + 1);
    }
}

/// Overwriting the row at `k` with a row of the same user and item does not
/// move the place at which the pair is found.
proof fn lemma_index_same_pair(
    before: Seq<UserMarketPurchase>,
    after: Seq<UserMarketPurchase>,
    user: u128,
    item: u128,
    k: int,
    from: int,
)
    requires
        0 <= from <= k < before.len(),
        purchase_index(before, user, item, from) == Some(k),
        after.len() == before.len(),
        after[k].user_id == user,
        after[k].item_id == item,
        forall|j: int| 0 <= j < before.len() && j != k ==> after[j] == before[j],
    ensures
        purchase_index(after, user, item, from) == Some(k),
    decreases k - from,
{
    if from < k {
        lemma_purchase_index(before, user, item, from + 1);
        lemma_index_same_pair(before, after, user, item, k, from + 1);
    }
}

/// A pair that no row has is found at the end once a row for it is added
/// there.
proof fn lemma_index_found_at_end(
    before: Seq<UserMarketPurchase>,
    after: Seq<UserMarketPurchase>,
    user: u128,
    item: u128,
    from: int,
)
    requires
        0 <= from <= before.len(),
        after.len() == before.len() + 1,
        after.last().user_id == user,
        after.last().item_id == item,
        forall|j: int| 0 <= j < before.len() ==> after[j] == before[j],
        forall|j: int|
            0 <= j < before.len() ==> !((#[trigger] before[j]).user_id == user && before[j].item_id
                == item),
    ensures
        purchase_index(after, user, item, from) == Some(before.len() as int),
    decreases before.len() - from,
{
    if from < before.len() {
        assert(!(before[from].user_id == user && before[from].item_id == item));
        lemma_index_found_at_end(before, after, user, item, from + 1);
    }
}

/// Of two purchases by one user that the wallet can pay each alone but not
/// both, the one that comes second is refused for want of funds, whichever
/// of the two it is; the wallet never goes below nothing.
pub proof fn lemma_no_double_spend(
    s0: MarketState,
    s1: MarketState,
    user: u128,
    item1: u128,
    quantity1: i32,
    cost1: i32,
    row1: UserMarketPurchase,
    purchase_id: u128,
    transaction_id: u128,
    now: i64,
    item2: u128,
    quantity2: i32,
    cost2: i32,
)
    requires
        s0.wf(),
        s0.purchase_decision(user, item1, quantity1) == Ok::<i32, MarketError>(cost1),
        s0.purchase_decision(user, item2, quantity2) == Ok::<i32, MarketError>(cost2),
        cost1 + cost2 > s0.wallets[user].total_coins,
        s0.purchased(s1, user, item1, quantity1, cost1, row1, purchase_id, transaction_id, now),
    ensures
        s1.purchase_decision(user, item2, quantity2) == Err::<i32, _>(
            MarketError::InsufficientFunds,
        ),
        s1.wallets[user].total_coins == s0.wallets[user].total_coins - cost1,
        s1.wallets[user].total_coins >= 0,
{
    lemma_purchase_keeps_books(
        s0,
        s1,
        user,
        item1,
        quantity1,
        cost1,
        row1,
        purchase_id,
        transaction_id,
        now,
    );
}

/// Buying the same item again adds to the row that is there: the number of
/// rows stays, the row keeps its id and its first time of purchase, and its
/// quantity and cost grow by those of the second purchase.
pub proof fn lemma_repeat_purchase_accumulates(
    s0: MarketState,
    s1: MarketState,
    s2: MarketState,
    user: u128,
    item: u128,
    quantity1: i32,
    cost1: i32,
    row1: UserMarketPurchase,
    purchase_id1: u128,
    transaction_id1: u128,
    now1: i64,
    quantity2: i32,
    cost2: i32,
    row2: UserMarketPurchase,
    purchase_id2: u128,
    transaction_id2: u128,
    now2: i64,
)
    requires
        s0.wf(),
        s0.purchase_decision(user, item, quantity1) == Ok::<i32, MarketError>(cost1),
        s0.purchased(s1, user, item, quantity1, cost1, row1, purchase_id1, transaction_id1, now1),
        s1.purchase_decision(user, item, quantity2) == Ok::<i32, MarketError>(cost2),
        s1.purchased(s2, user, item, quantity2, cost2, row2, purchase_id2, transaction_id2, now2),
    ensures
        s2.purchases.len() == s1.purchases.len(),
        row2.id == row1.id,
        row2.purchased_at == row1.purchased_at,
        row2.quantity == row1.quantity + quantity2,
        row2.cost_paid_coins == row1.cost_paid_coins + cost2,
        purchase_of(s2.purchases, user, item) == Some(row2),
        s2.wf(),
{
    lemma_purchase_keeps_books(
        s0,
        s1,
        user,
        item,
        quantity1,
        cost1,
        row1,
        purchase_id1,
        transaction_id1,
        now1,
    );
    lemma_purchase_keeps_books(
        s1,
        s2,
        user,
        item,
        quantity2,
        cost2,
        row2,
        purchase_id2,
        transaction_id2,
        now2,
    );
    lemma_purchase_index(s1.purchases, user, item, 0);
}

/// A reward is claimed at most once: after a claim of a reward, whether it
/// did anything or not, that reward cannot be claimed, so of two claims the
/// second is answered with no. No other reward is touched.
pub proof fn lemma_claim_once(rewards: Seq<UserReward>, id: u128, now: i64)
    ensures
        !is_claimable(rewards.map_values(|r: UserReward| claimed_row(r, id, now)), id),
        forall|other: u128|
            other != id ==> is_claimable(
                rewards.map_values(|r: UserReward| claimed_row(r, id, now)),
                other,
            ) == is_claimable(rewards, other),
        forall|k: int|
            0 <= k < rewards.len() && (#[trigger] rewards[k]).id != id ==> rewards.map_values(
                |r: UserReward| claimed_row(r, id, now),
            )[k] == rewards[k],
{
    let after = rewards.map_values(|r: UserReward| claimed_row(r, id, now));
    assert forall|other: u128| other != id implies is_claimable(after, other) == is_claimable(
        rewards,
        other,
    ) by {
        if is_claimable(rewards, other) {
            let i = choose|i: int|
                0 <= i < rewards.len() && (#[trigger] rewards[i]).id == other && !rewards[i].claimed;
            assert(after[i].id == other && !after[i].claimed);
        }
        if is_claimable(after, other) {
            let i = choose|i: int|
                0 <= i < after.len() && (#[trigger] after[i]).id == other && !after[i].claimed;
            assert(rewards[i].id == other && !rewards[i].claimed);
        }
    }
}

} // verus!
