//! The tables of the market and the operations on them.
//!
//! Every operation is one unit of work: it either does all that it says or
//! changes nothing.

use vstd::prelude::*;
use vstd::string::*;
use std::collections::HashMap;
use crate::market_models::MarketItem;
use crate::market_models::MarketRecommendation;
use crate::market_models::MarketTransaction;
use crate::market_models::TransactionKind;
use crate::market_models::UserMarketPurchase;
use crate::market_models::UserReward;
use crate::market_models::UserWallet;
use crate::catalogue::available_at;
use crate::catalogue::available_items;
use crate::catalogue::in_category;
use crate::catalogue::is_catalogue_view;
use crate::catalogue::items_in_category;
use crate::order::gather;
use crate::order::is_listed;
use crate::order::is_listed_up_to;
use crate::order::list_desc;
use crate::order::shows;
use crate::purchase::plan_purchase;
use crate::purchase::purchase_cost;
use crate::purchase::upserted;
use crate::purchase::MarketError;
use crate::vault_repo::StoreError;

verus! {

broadcast use vstd::std_specs::hash::group_hash_axioms;

/// What the tables hold.
pub struct MarketState {
    pub items: Seq<MarketItem>,
    pub wallets: Map<u128, UserWallet>,
    pub purchases: Seq<UserMarketPurchase>,
    pub transactions: Seq<MarketTransaction>,
    pub rewards: Seq<UserReward>,
    pub recommendations: Seq<MarketRecommendation>,
}

/// What the ledger says that `user` holds: earnings and refunds counted up,
/// spending counted down.
pub open spec fn balance(transactions: Seq<MarketTransaction>, user: u128) -> int
    decreases transactions.len(),
{
    if transactions.len() == 0 {
        0
    } else {
        let last = transactions.last();
        balance(transactions.drop_last(), user) + if last.user_id == user {
            last.transaction_type.signed(last.coins_amount as int)
        } else {
            0
        }
    }
}

/// The price of the first item in the catalogue with the id `id`.
pub open spec fn item_price(items: Seq<MarketItem>, id: u128, from: int) -> Option<i32>
    decreases items.len() - from,
{
    if from < 0 || from >= items.len() {
        None
    } else if items[from].id == id {
        Some(items[from].cost_coins)
    } else {
        item_price(items, id, from + 1)
    }
}

/// Where the row of what `user` holds of `item` stands, looking from `from`
/// on.
pub open spec fn purchase_index(
    purchases: Seq<UserMarketPurchase>,
    user: u128,
    item: u128,
    from: int,
) -> Option<int>
    decreases purchases.len() - from,
{
    if from < 0 || from >= purchases.len() {
        None
    } else if purchases[from].user_id == user && purchases[from].item_id == item {
        Some(from)
    } else {
        purchase_index(purchases, user, item, from + 1)
    }
}

/// The row of what `user` holds of `item`, if there is one.
pub open spec fn purchase_of(purchases: Seq<UserMarketPurchase>, user: u128, item: u128) -> Option<
    UserMarketPurchase,
> {
    match purchase_index(purchases, user, item, 0) {
        Some(k) => Some(purchases[k]),
        None => None,
    }
}

/// The purchases after `row` was written for `user` and `item`: in place of
/// the row that was there, or at the end where there was none.
pub open spec fn purchases_with(
    purchases: Seq<UserMarketPurchase>,
    user: u128,
    item: u128,
    row: UserMarketPurchase,
) -> Seq<UserMarketPurchase> {
    match purchase_index(purchases, user, item, 0) {
        Some(k) => purchases.update(k, row),
        None => purchases.push(row),
    }
}

/// The key by which the purchases of `user` are listed: the time of the
/// purchase. Rows of other users have none.
pub open spec fn purchase_keys(purchases: Seq<UserMarketPurchase>, user: u128) -> Seq<Option<i64>> {
    Seq::new(
        purchases.len(),
        |k: int|
            if purchases[k].user_id == user {
                Some(purchases[k].purchased_at)
            } else {
                None
            },
    )
}

/// The key by which the rewards of `user` are listed: the time of their
/// creation. Rows of other users have none.
pub open spec fn reward_keys(rewards: Seq<UserReward>, user: u128) -> Seq<Option<i64>> {
    Seq::new(
        rewards.len(),
        |k: int|
            if rewards[k].user_id == user {
                Some(rewards[k].created_at)
            } else {
                None
            },
    )
}

/// A score as a key: a recommendation without a score ranks below every
/// recommendation with one.
pub open spec fn score_key(score: Option<u32>) -> i64 {
    match score {
        Some(s) => s as i64,
        None => -1i64,
    }
}

/// The key by which the recommendations for `user` are listed: the score.
/// Rows of other users have none.
pub open spec fn recommendation_keys(recommendations: Seq<MarketRecommendation>, user: u128) -> Seq<
    Option<i64>,
> {
    Seq::new(
        recommendations.len(),
        |k: int|
            if recommendations[k].user_id == user {
                Some(score_key(recommendations[k].score))
            } else {
                None
            },
    )
}

/// The reward `r` after a claim of the reward `id` at `now`: claimed, if it
/// is that reward and was not claimed yet; as it was, if not.
pub open spec fn claimed_row(r: UserReward, id: u128, now: i64) -> UserReward {
    if r.id == id && !r.claimed {
        UserReward { claimed: true, claimed_at: Some(now), ..r }
    } else {
        r
    }
}

/// The reward `id` is there and has not been claimed.
pub open spec fn is_claimable(rewards: Seq<UserReward>, id: u128) -> bool {
    exists|i: int| 0 <= i < rewards.len() && (#[trigger] rewards[i]).id == id && !rewards[i].claimed
}

/// What is known of an index that `purchase_index` gives, and of the rows
/// where it gives none.
pub proof fn lemma_purchase_index(
    purchases: Seq<UserMarketPurchase>,
    user: u128,
    item: u128,
    from: int,
)
    requires
        0 <= from,
    ensures
        purchase_index(purchases, user, item, from) matches Some(k) ==> from <= k < purchases.len()
            && purchases[k].user_id == user && purchases[k].item_id == item,
        purchase_index(purchases, user, item, from) is None ==> forall|j: int|
            from <= j < purchases.len() ==> !((#[trigger] purchases[j]).user_id == user
                && purchases[j].item_id == item),
    decreases purchases.len() - from,
{
    if from < purchases.len() && !(purchases[from].user_id == user && purchases[from].item_id
        == item) {
        lemma_purchase_index(purchases, user, item, from + 1);
    }
}

impl MarketState {
    /// The wallet of `user`, if the user has one.
    pub open spec fn wallet_of(self, user: u128) -> Option<UserWallet> {
        if self.wallets.contains_key(user) {
            Some(self.wallets[user])
        } else {
            None
        }
    }

    /// Whether a purchase of `quantity` of `item` by `user` goes through,
    /// and for how much.
    pub open spec fn purchase_decision(self, user: u128, item: u128, quantity: i32) -> Result<
        i32,
        MarketError,
    > {
        purchase_cost(
            quantity,
            item_price(self.items, item, 0),
            self.wallet_of(user),
            purchase_of(self.purchases, user, item),
        )
    }

    /// `after` is what the tables hold once `user` has bought `quantity` of
    /// `item` for `cost`, and `row` is the user's row for the item as it
    /// then stands: the coins have left the wallet, the ledger has one more
    /// entry, a `spend` of `cost` with the reason `purchase`, the row holds
    /// the quantity and the cost on top of what it held, and nothing else
    /// has changed.
    pub open spec fn purchased(
        self,
        after: MarketState,
        user: u128,
        item: u128,
        quantity: i32,
        cost: i32,
        row: UserMarketPurchase,
        purchase_id: u128,
        transaction_id: u128,
        now: i64,
    ) -> bool {
        &&& row == upserted(
            purchase_of(self.purchases, user, item),
            user,
            item,
            quantity,
            cost,
            purchase_id,
            now,
        )
        &&& after.purchases == purchases_with(self.purchases, user, item, row)
        &&& after.wallets == self.wallets.insert(
            user,
            self.wallets[user].booked(TransactionKind::Spend, cost, now),
        )
        &&& after.transactions.len() == self.transactions.len() + 1
        &&& after.transactions.drop_last() == self.transactions
        &&& is_entry(
            after.transactions.last(),
            transaction_id,
            user,
            TransactionKind::Spend,
            cost,
            "purchase"@,
            now,
        )
        &&& after.items == self.items
        &&& after.rewards == self.rewards
        &&& after.recommendations == self.recommendations
    }

    /// Every wallet is filed under its own user, holds no negative amount
    /// and holds what was earned less what was spent; the ledger accounts
    /// for every wallet to the coin, and for nobody else; no item has a
    /// negative price; and no user has two rows for one item.
    pub open spec fn wf(self) -> bool {
        &&& forall|u: u128| #[trigger]
            self.wallets.contains_key(u) ==> self.wallets[u].user_id == u && self.wallets[u].wf()
        &&& forall|u: u128| #[trigger]
            balance(self.transactions, u) == if self.wallets.contains_key(u) {
                self.wallets[u].total_coins as int
            } else {
                0
            }
        &&& forall|i: int| 0 <= i < self.items.len() ==> (#[trigger] self.items[i]).cost_coins >= 0
        &&& forall|a: int, b: int|
            0 <= a < b < self.purchases.len() ==> !((#[trigger] self.purchases[a]).user_id == (
            #[trigger] self.purchases[b]).user_id && self.purchases[a].item_id
                == self.purchases[b].item_id)
    }
}

/// `t` is the ledger entry of `kind` and `amount` for `user`, written at
/// `now` under `id` with the reason `reason`.
pub open spec fn is_entry(
    t: MarketTransaction,
    id: u128,
    user: u128,
    kind: TransactionKind,
    amount: i32,
    reason: Seq<char>,
    now: i64,
) -> bool {
    &&& t.id == id
    &&& t.user_id == user
    &&& t.transaction_type == kind
    &&& t.coins_amount == amount
    &&& t.reason matches Some(s)
    &&& s@ == reason
    &&& t.created_at == now
}

/// The tables of the market.
pub struct MarketRepo {
    items: Vec<MarketItem>,
    wallets: HashMap<u128, UserWallet>,
    purchases: Vec<UserMarketPurchase>,
    transactions: Vec<MarketTransaction>,
    rewards: Vec<UserReward>,
    recommendations: Vec<MarketRecommendation>,
}

impl View for MarketRepo {
    type V = MarketState;

    closed spec fn view(&self) -> MarketState {
        MarketState {
            items: self.items@,
            wallets: self.wallets@,
            purchases: self.purchases@,
            transactions: self.transactions@,
            rewards: self.rewards@,
            recommendations: self.recommendations@,
        }
    }
}

impl MarketRepo {
    /// Tables without rows.
    pub fn new() -> (r: MarketRepo)
        ensures
            r@.wf(),
            r@.items.len() == 0,
            r@.wallets == Map::<u128, UserWallet>::empty(),
            r@.purchases.len() == 0,
            r@.transactions.len() == 0,
            r@.rewards.len() == 0,
            r@.recommendations.len() == 0,
    {
        MarketRepo {
            items: Vec::new(),
            wallets: HashMap::new(),
            purchases: Vec::new(),
            transactions: Vec::new(),
            rewards: Vec::new(),
            recommendations: Vec::new(),
        }
    }

    /// The ledger, oldest entry first.
    pub fn transactions(&self) -> (r: &Vec<MarketTransaction>)
        ensures
            r@ == self@.transactions,
    {
        &self.transactions
    }

    /// Adds an item to the catalogue. An item with a negative price is
    /// refused.
    pub fn add_item(&mut self, item: MarketItem) -> (accepted: bool)
        requires
            old(self)@.wf(),
        ensures
            final(self)@.wf(),
            accepted == (item.cost_coins >= 0),
            accepted ==> final(self)@ == (MarketState {
                items: old(self)@.items.push(item),
                ..old(self)@
            }),
            !accepted ==> final(self)@ == old(self)@,
    {
        if item.cost_coins < 0 {
            return false;
        }
        self.items.push(item);
        true
    }

    /// Adds a reward that a user can claim.
    pub fn add_reward(&mut self, reward: UserReward)
        requires
            old(self)@.wf(),
        ensures
            final(self)@.wf(),
            final(self)@ == (MarketState {
                rewards: old(self)@.rewards.push(reward),
                ..old(self)@
            }),
    {
        self.rewards.push(reward);
    }

    /// Adds a recommendation.
    pub fn add_recommendation(&mut self, recommendation: MarketRecommendation)
        requires
            old(self)@.wf(),
        ensures
            final(self)@.wf(),
            final(self)@ == (MarketState {
                recommendations: old(self)@.recommendations.push(recommendation),
                ..old(self)@
            }),
    {
        self.recommendations.push(recommendation);
    }

    /// The user's wallet, if the user has one.
    pub fn get_wallet(&self, user_id: u128) -> (r: Option<UserWallet>)
        requires
            self@.wf(),
        ensures
            r == if self@.wallets.contains_key(user_id) {
                Some(self@.wallets[user_id])
            } else {
                None
            },
            r matches Some(w) ==> w.wf() && w.user_id == user_id,
    {
        match self.wallets.get(&user_id) {
            Some(w) => {
                assert(self@.wallets.contains_key(user_id));
                Some(*w)
            },
            None => None,
        }
    }

    /// The user's wallet, created empty under `new_id` if the user had
    /// none. A wallet that was there keeps its coins and is marked as
    /// touched at `now`.
    pub fn get_or_create_wallet(&mut self, user_id: u128, new_id: u128, now: i64) -> (r: UserWallet)
        requires
            old(self)@.wf(),
        ensures
            final(self)@.wf(),
            r == if old(self)@.wallets.contains_key(user_id) {
                UserWallet { updated_at: now, ..old(self)@.wallets[user_id] }
            } else {
                UserWallet::fresh(new_id, user_id, now)
            },
            final(self)@ == (MarketState {
                wallets: old(self)@.wallets.insert(user_id, r),
                ..old(self)@
            }),
    {
        let w = match self.wallets.get(&user_id) {
            Some(w) => UserWallet { updated_at: now, ..*w },
            None => UserWallet::new(new_id, user_id, now),
        };
        self.wallets.insert(user_id, w);
        proof {
            let old_state = old(self)@;
            let new_state = self@;
            assert(new_state.transactions == old_state.transactions);
            assert forall|u: u128| #[trigger]
                balance(new_state.transactions, u) == if new_state.wallets.contains_key(u) {
                    new_state.wallets[u].total_coins as int
                } else {
                    0
                } by {
                assert(balance(old_state.transactions, u) == if old_state.wallets.contains_key(u) {
                    old_state.wallets[u].total_coins as int
                } else {
                    0
                });
            }
        }
        w
    }

    /// The price of the first item with the id `item_id`.
    fn find_price(&self, item_id: u128) -> (r: Option<i32>)
        ensures
            r == item_price(self@.items, item_id, 0),
    {
        let mut i: usize = 0;
        while i < self.items.len()
            invariant
                0 <= i <= self.items.len(),
                item_price(self.items@, item_id, 0) == item_price(self.items@, item_id, i as int),
            decreases self.items.len() - i,
        {
            if self.items[i].id == item_id {
                return Some(self.items[i].cost_coins);
            }
            i = i + 1;
        }
        None
    }

    /// Where the row of what `user_id` holds of `item_id` stands.
    fn find_purchase(&self, user_id: u128, item_id: u128) -> (r: Option<usize>)
        ensures
            r matches Some(k) ==> purchase_index(self@.purchases, user_id, item_id, 0) == Some(
                k as int,
            ) && k < self@.purchases.len(),
            r is None ==> purchase_index(self@.purchases, user_id, item_id, 0) is None,
    {
        let mut i: usize = 0;
        while i < self.purchases.len()
            invariant
                0 <= i <= self.purchases.len(),
                purchase_index(self.purchases@, user_id, item_id, 0) == purchase_index(
                    self.purchases@,
                    user_id,
                    item_id,
                    i as int,
                ),
            decreases self.purchases.len() - i,
        {
            if self.purchases[i].user_id == user_id && self.purchases[i].item_id == item_id {
                return Some(i);
            }
            i = i + 1;
        }
        None
    }

    /// Books an entry of `kind` and `amount` on the user's wallet and
    /// writes it to the ledger, both or neither.
    ///
    /// It is refused for a user without a wallet, for spending more than
    /// the wallet holds, and for an amount that is negative, that refunds
    /// more than was spent or that takes the earnings out of range.
    pub fn record_transaction(
        &mut self,
        user_id: u128,
        kind: TransactionKind,
        amount: i32,
        reason: &str,
        transaction_id: u128,
        now: i64,
    ) -> (r: Result<UserWallet, MarketError>)
        requires
            old(self)@.wf(),
        ensures
            final(self)@.wf(),
            r is Ok <==> old(self)@.wallets.contains_key(user_id) && old(
                self,
            )@.wallets[user_id].can_book(kind, amount),
            r matches Ok(w) ==> {
                &&& w == old(self)@.wallets[user_id].booked(kind, amount, now)
                &&& final(self)@.wallets == old(self)@.wallets.insert(user_id, w)
                &&& final(self)@.transactions.len() == old(self)@.transactions.len() + 1
                &&& final(self)@.transactions.drop_last() == old(self)@.transactions
                &&& is_entry(
                    final(self)@.transactions.last(),
                    transaction_id,
                    user_id,
                    kind,
                    amount,
                    reason@,
                    now,
                )
                &&& final(self)@.items == old(self)@.items
                &&& final(self)@.purchases == old(self)@.purchases
                &&& final(self)@.rewards == old(self)@.rewards
                &&& final(self)@.recommendations == old(self)@.recommendations
            },
            r matches Err(e) ==> {
                &&& final(self)@ == old(self)@
                &&& e == if !old(self)@.wallets.contains_key(user_id) {
                    MarketError::WalletNotFound
                } else if kind is Spend && amount >= 0 {
                    MarketError::InsufficientFunds
                } else {
                    MarketError::OutOfRange
                }
            },
    {
        let wallet = match self.wallets.get(&user_id) {
            Some(w) => *w,
            None => {
                return Err(MarketError::WalletNotFound);
            },
        };
        assert(self@.wallets.contains_key(user_id));
        let after = match wallet.book(kind, amount, now) {
            Some(w) => w,
            None => {
                return match kind {
                    TransactionKind::Spend => if amount >= 0 {
                        Err(MarketError::InsufficientFunds)
                    } else {
                        Err(MarketError::OutOfRange)
                    },
                    _ => Err(MarketError::OutOfRange),
                };
            },
        };
        self.write_entry(user_id, kind, amount, reason, transaction_id, now, after);
        Ok(after)
    }

    /// Writes a wallet and the ledger entry that accounts for its change.
    fn write_entry(
        &mut self,
        user_id: u128,
        kind: TransactionKind,
        amount: i32,
        reason: &str,
        transaction_id: u128,
        now: i64,
        after: UserWallet,
    )
        requires
            old(self)@.wf(),
            old(self)@.wallets.contains_key(user_id),
            after.wf(),
            after.user_id == user_id,
            after.total_coins == old(self)@.wallets[user_id].total_coins + kind.signed(
                amount as int,
            ),
        ensures
            final(self)@.wf(),
            final(self)@.wallets == old(self)@.wallets.insert(user_id, after),
            final(self)@.transactions.len() == old(self)@.transactions.len() + 1,
            final(self)@.transactions.drop_last() == old(self)@.transactions,
            is_entry(
                final(self)@.transactions.last(),
                transaction_id,
                user_id,
                kind,
                amount,
                reason@,
                now,
            ),
            final(self)@.items == old(self)@.items,
            final(self)@.purchases == old(self)@.purchases,
            final(self)@.rewards == old(self)@.rewards,
            final(self)@.recommendations == old(self)@.recommendations,
    {
        let entry = MarketTransaction {
            id: transaction_id,
            user_id,
            transaction_type: kind,
            coins_amount: amount,
            reason: Some(String::from_str(reason)),
            created_at: now,
        };
        self.wallets.insert(user_id, after);
        self.transactions.push(entry);
        proof {
            let old_state = old(self)@;
            let new_state = self@;
            assert(new_state.transactions.drop_last() =~= old_state.transactions);
            assert(new_state.purchases == old_state.purchases);
            assert forall|a: int, b: int| 0 <= a < b < new_state.purchases.len() implies !((
            #[trigger] new_state.purchases[a]).user_id == (#[trigger] new_state.purchases[b]).user_id
                && new_state.purchases[a].item_id == new_state.purchases[b].item_id) by {
                assert(!(old_state.purchases[a].user_id == old_state.purchases[b].user_id
                    && old_state.purchases[a].item_id == old_state.purchases[b].item_id));
            }
            assert forall|u: u128| #[trigger]
                balance(new_state.transactions, u) == if new_state.wallets.contains_key(u) {
                    new_state.wallets[u].total_coins as int
                } else {
                    0
                } by {
                assert(balance(old_state.transactions, u) == if old_state.wallets.contains_key(u) {
                    old_state.wallets[u].total_coins as int
                } else {
                    0
                });
            }
        }
    }

    /// Writes the row of what `user_id` holds of `item_id`: over the row
    /// at `at`, or at the end where there is none.
    fn write_purchase(&mut self, user_id: u128, item_id: u128, at: Option<usize>, row: UserMarketPurchase)
        requires
            old(self)@.wf(),
            row.user_id == user_id,
            row.item_id == item_id,
            at matches Some(k) ==> purchase_index(old(self)@.purchases, user_id, item_id, 0)
                == Some(k as int) && k < old(self)@.purchases.len(),
            at is None ==> purchase_index(old(self)@.purchases, user_id, item_id, 0) is None,
        ensures
            final(self)@.wf(),
            final(self)@ == (MarketState {
                purchases: purchases_with(old(self)@.purchases, user_id, item_id, row),
                ..old(self)@
            }),
    {
        proof {
            lemma_purchase_index(self@.purchases, user_id, item_id, 0);
        }
        let ghost before = self@.purchases;
        match at {
            Some(k) => {
                self.purchases.set(k, row);
            },
            None => {
                self.purchases.push(row);
            },
        }
        proof {
            let after = self@.purchases;
            assert(after == purchases_with(before, user_id, item_id, row));
            assert forall|a: int, b: int| 0 <= a < b < after.len() implies !((
            #[trigger] after[a]).user_id == (#[trigger] after[b]).user_id && after[a].item_id
                == after[b].item_id) by {
                match at {
                    Some(k) => {
                        assert(!(before[a].user_id == before[b].user_id && before[a].item_id
                            == before[b].item_id));
                    },
                    None => {
                        if b < before.len() {
                            assert(!(before[a].user_id == before[b].user_id && before[a].item_id
                                == before[b].item_id));
                        } else {
                            assert(!(before[a].user_id == user_id && before[a].item_id == item_id));
                        }
                    },
                }
            }
        }
    }

    /// Buys `quantity` of the item `item_id` for `user_id`.
    ///
    /// The purchase is refused, and nothing is written, where the quantity
    /// is not positive, the item or the wallet does not exist, the wallet
    /// holds less than the price times the quantity, or a counter would
    /// leave its range. Otherwise the coins leave the wallet, the ledger
    /// gets a `spend` entry with the reason `purchase`, and the quantity and
    /// the cost are added to the row of what the user holds of the item, a
    /// row that is created where the user held none. The row is returned as
    /// it then stands.
    pub fn purchase_item(
        &mut self,
        user_id: u128,
        item_id: u128,
        quantity: i32,
        purchase_id: u128,
        transaction_id: u128,
        now: i64,
    ) -> (r: Result<UserMarketPurchase, MarketError>)
        requires
            old(self)@.wf(),
        ensures
            final(self)@.wf(),
            r matches Err(e) ==> old(self)@.purchase_decision(user_id, item_id, quantity) == Err::<
                i32,
                _,
            >(e) && final(self)@ == old(self)@,
            r matches Ok(row) ==> {
                &&& old(self)@.purchase_decision(user_id, item_id, quantity) matches Ok(cost)
                &&& old(self)@.purchased(
                    final(self)@,
                    user_id,
                    item_id,
                    quantity,
                    cost,
                    row,
                    purchase_id,
                    transaction_id,
                    now,
                )
            },
    {
        let price = self.find_price(item_id);
        let wallet = self.get_wallet(user_id);
        let at = self.find_purchase(user_id, item_id);
        let existing = match at {
            Some(k) => Some(self.purchases[k]),
            None => None,
        };
        let plan = match plan_purchase(
            user_id,
            item_id,
            quantity,
            price,
            wallet,
            existing,
            purchase_id,
            now,
        ) {
            Ok(plan) => plan,
            Err(e) => {
                return Err(e);
            },
        };
        proof {
            lemma_purchase_index(self@.purchases, user_id, item_id, 0);
        }
        self.write_purchase(user_id, item_id, at, plan.purchase);
        self.write_entry(
            user_id,
            TransactionKind::Spend,
            plan.total_cost,
            "purchase",
            transaction_id,
            now,
            plan.wallet,
        );
        Ok(plan.purchase)
    }

    /// The items that can be bought at `now`, by category, items without
    /// a category last, and by name within a category.
    pub fn get_available_items(&self, now: i64) -> (r: Vec<&MarketItem>)
        ensures
            is_catalogue_view(
                self@.items,
                available_at(self@.items, now),
                r@.map_values(|x: &MarketItem| *x),
            ),
    {
        available_items(&self.items, now)
    }

    /// The items of `category` that are switched on, by name.
    pub fn get_items_by_category(&self, category: &str) -> (r: Vec<&MarketItem>)
        ensures
            is_catalogue_view(
                self@.items,
                in_category(self@.items, category@),
                r@.map_values(|x: &MarketItem| *x),
            ),
    {
        items_in_category(&self.items, category)
    }

    /// What the user has bought, the latest purchase first; rows of the
    /// same time in the order of the table.
    pub fn get_user_purchases(&self, user_id: u128) -> (r: Vec<UserMarketPurchase>)
        ensures
            is_listed(self@.purchases, purchase_keys(self@.purchases, user_id), r@),
    {
        let mut keys: Vec<Option<i64>> = Vec::new();
        let mut i: usize = 0;
        while i < self.purchases.len()
            invariant
                0 <= i <= self.purchases.len(),
                keys@ == purchase_keys(self.purchases@, user_id).take(i as int),
            decreases self.purchases.len() - i,
        {
            let row = &self.purchases[i];
            keys.push(
                if row.user_id == user_id {
                    Some(row.purchased_at)
                } else {
                    None
                },
            );
            assert(keys@ =~= purchase_keys(self.purchases@, user_id).take(i + 1));
            i = i + 1;
        }
        assert(keys@ =~= purchase_keys(self.purchases@, user_id));
        let list = list_desc(&keys);
        let found = gather(&self.purchases, &list, list.len());
        let mut out: Vec<UserMarketPurchase> = Vec::new();
        let mut j: usize = 0;
        while j < found.len()
            invariant
                0 <= j <= found.len(),
                out.len() == j,
                forall|k: int| 0 <= k < j ==> #[trigger] out@[k] == *found@[k],
            decreases found.len() - j,
        {
            out.push(*found[j]);
            j = j + 1;
        }
        proof {
            let shown = found@.map_values(|x: &UserMarketPurchase| *x);
            assert(out@ =~= shown);
            assert(shows(self@.purchases, list@, out@));
        }
        out
    }

    /// The user's rewards, the latest first; rows of the same time in the
    /// order of the table.
    pub fn get_user_rewards(&self, user_id: u128) -> (r: Vec<&UserReward>)
        ensures
            is_listed(
                self@.rewards,
                reward_keys(self@.rewards, user_id),
                r@.map_values(|x: &UserReward| *x),
            ),
    {
        let mut keys: Vec<Option<i64>> = Vec::new();
        let mut i: usize = 0;
        while i < self.rewards.len()
            invariant
                0 <= i <= self.rewards.len(),
                keys@ == reward_keys(self.rewards@, user_id).take(i as int),
            decreases self.rewards.len() - i,
        {
            let row = &self.rewards[i];
            keys.push(
                if row.user_id == user_id {
                    Some(row.created_at)
                } else {
                    None
                },
            );
            assert(keys@ =~= reward_keys(self.rewards@, user_id).take(i + 1));
            i = i + 1;
        }
        assert(keys@ =~= reward_keys(self.rewards@, user_id));
        let list = list_desc(&keys);
        let out = gather(&self.rewards, &list, list.len());
        assert(shows(self@.rewards, list@, out@.map_values(|x: &UserReward| *x)));
        out
    }

    /// The recommendations for the user, the highest score first and those
    /// without a score last, at most `limit` of them; rows of the same
    /// score in the order of the table. A negative limit is refused.
    pub fn get_recommendations(&self, user_id: u128, limit: i64) -> (r: Result<
        Vec<&MarketRecommendation>,
        StoreError,
    >)
        ensures
            r is Ok <==> limit >= 0,
            r matches Ok(rows) ==> is_listed_up_to(
                self@.recommendations,
                recommendation_keys(self@.recommendations, user_id),
                limit as int,
                rows@.map_values(|x: &MarketRecommendation| *x),
            ),
            r matches Err(e) ==> e == StoreError::Other,
    {
        if limit < 0 {
            return Err(StoreError::Other);
        }
        let mut keys: Vec<Option<i64>> = Vec::new();
        let mut i: usize = 0;
        while i < self.recommendations.len()
            invariant
                0 <= i <= self.recommendations.len(),
                keys@ == recommendation_keys(self.recommendations@, user_id).take(i as int),
            decreases self.recommendations.len() - i,
        {
            let row = &self.recommendations[i];
            keys.push(
                if row.user_id == user_id {
                    Some(
                        match row.score {
                            Some(s) => s as i64,
                            None => -1,
                        },
                    )
                } else {
                    None
                },
            );
            assert(keys@ =~= recommendation_keys(self.recommendations@, user_id).take(i + 1));
            i = i + 1;
        }
        assert(keys@ =~= recommendation_keys(self.recommendations@, user_id));
        let list = list_desc(&keys);
        let count: usize = if (list.len() as u64) < (limit as u64) {
            list.len()
        } else {
            limit as usize
        };
        let out = gather(&self.recommendations, &list, count);
        assert(shows(
            self@.recommendations,
            list@,
            out@.map_values(|x: &MarketRecommendation| *x),
        ));
        Ok(out)
    }

    /// Claims the reward `reward_id` at `now` and says whether this call
    /// did it: a reward that is not there, or that was claimed before, is
    /// left as it is and the answer is no.
    pub fn claim_reward(&mut self, reward_id: u128, now: i64) -> (claimed: bool)
        requires
            old(self)@.wf(),
        ensures
            final(self)@.wf(),
            claimed == is_claimable(old(self)@.rewards, reward_id),
            final(self)@ == (MarketState {
                rewards: old(self)@.rewards.map_values(
                    |r: UserReward| claimed_row(r, reward_id, now),
                ),
                ..old(self)@
            }),
    {
        let ghost before = self@.rewards;
        let mut claimed = false;
        let mut i: usize = 0;
        while i < self.rewards.len()
            invariant
                0 <= i <= self.rewards.len(),
                self.rewards@.len() == before.len(),
                self.items == old(self).items,
                self.wallets == old(self).wallets,
                self.purchases == old(self).purchases,
                self.transactions == old(self).transactions,
                self.recommendations == old(self).recommendations,
                forall|k: int| 0 <= k < i ==> #[trigger] self.rewards@[k] == claimed_row(before[k], reward_id, now),
                forall|k: int| i <= k < before.len() ==> #[trigger] self.rewards@[k] == before[k],
                claimed == exists|k: int| 0 <= k < i && (#[trigger] before[k]).id == reward_id && !before[k].claimed,
            decreases self.rewards.len() - i,
        {
            if self.rewards[i].id == reward_id && !self.rewards[i].claimed {
                let row = &mut self.rewards[i];
                row.claimed = true;
                row.claimed_at = Some(now);
                claimed = true;
            }
            i = i + 1;
        }
        proof {
            assert(self@.rewards =~= before.map_values(|r: UserReward| claimed_row(r, reward_id, now)));
        }
        claimed
    }
}

} // verus!
