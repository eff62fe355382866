//! The rows of the market: catalogue items, wallets, purchases, the
//! transaction ledger, rewards and recommendations.
//!
//! Identifiers are 128-bit numbers and points in time are counted in whole
//! units from a fixed origin, the later the greater.

use vstd::prelude::*;
use crate::named::is_bijective;
use crate::named::NamedEnum;

verus! {

/// An entry of the catalogue.
#[derive(Debug, Clone, PartialEq, Eq)]
pub struct MarketItem {
    pub id: u128,
    pub name: String,
    pub description: Option<String>,
    pub cost_coins: i32,
    pub category: Option<String>,
    /// One of `common`, `rare`, `epic`, `legendary`.
    pub rarity: Option<String>,
    pub icon_url: Option<String>,
    pub available: bool,
    pub available_from: Option<i64>,
    pub available_until: Option<i64>,
    pub created_at: i64,
    pub updated_at: i64,
}

/// A user's coins: what is there now, what was ever earned, what was ever
/// spent.
#[derive(Debug, Clone, Copy, PartialEq, Eq, Structural)]
pub struct UserWallet {
    pub id: u128,
    pub user_id: u128,
    pub total_coins: i32,
    pub earned_coins: i32,
    pub spent_coins: i32,
    pub updated_at: i64,
    pub created_at: i64,
}

/// A reward that a user can claim once.
#[derive(Debug, Clone, PartialEq, Eq)]
pub struct UserReward {
    pub id: u128,
    pub user_id: u128,
    pub reward_type: String,
    pub coins_earned: i32,
    pub claimed: bool,
    pub claimed_at: Option<i64>,
    pub created_at: i64,
}

/// What a user holds of one item: how many, and what was paid for them in
/// all.
#[derive(Debug, Clone, Copy, PartialEq, Eq, Structural)]
pub struct UserMarketPurchase {
    pub id: u128,
    pub user_id: u128,
    pub item_id: u128,
    pub quantity: i32,
    pub cost_paid_coins: i32,
    pub purchased_at: i64,
}

/// The direction of a ledger entry.
#[derive(Debug, Clone, Copy, PartialEq, Eq, Structural)]
pub enum TransactionKind {
    Earn,
    Spend,
    Refund,
}

/// An entry of the ledger. Entries are only ever added.
#[derive(Debug, Clone, PartialEq, Eq)]
pub struct MarketTransaction {
    pub id: u128,
    pub user_id: u128,
    pub transaction_type: TransactionKind,
    pub coins_amount: i32,
    pub reason: Option<String>,
    pub created_at: i64,
}

/// An item recommended to a user. The score counts millionths, from 0 to
/// one million; a recommendation may have none.
#[derive(Debug, Clone, PartialEq, Eq)]
pub struct MarketRecommendation {
    pub id: u128,
    pub user_id: u128,
    pub item_id: u128,
    pub score: Option<u32>,
    pub reason: Option<String>,
    pub computed_at: i64,
}

/// A request to buy an item.
#[derive(Debug, Clone, Copy, PartialEq, Eq, Structural)]
pub struct PurchaseRequest {
    pub item_id: u128,
    pub quantity: Option<i32>,
}

/// The three amounts of a wallet.
#[derive(Debug, Clone, Copy, PartialEq, Eq, Structural)]
pub struct WalletResponse {
    pub total_coins: i32,
    pub earned_coins: i32,
    pub spent_coins: i32,
}

/// What a user has bought.
#[derive(Debug, Clone, PartialEq, Eq)]
pub struct InventoryResponse {
    pub purchases: Vec<UserMarketPurchase>,
    pub total_items: usize,
}

/// The catalogue together with what is recommended to the user.
#[derive(Debug, Clone, PartialEq, Eq)]
pub struct MarketResponse {
    pub items: Vec<MarketItem>,
    pub recommendations: Vec<MarketRecommendation>,
}

impl NamedEnum for TransactionKind {
    open spec fn name(&self) -> Seq<char> {
        match self {
            TransactionKind::Earn => "earn"@,
            TransactionKind::Spend => "spend"@,
            TransactionKind::Refund => "refund"@,
        }
    }

    open spec fn all() -> Seq<Self> {
        seq![TransactionKind::Earn, TransactionKind::Spend, TransactionKind::Refund]
    }

    open spec fn kind_name() -> Seq<char> {
        "TransactionKind"@
    }

    fn as_str(&self) -> (s: &'static str) {
        match self {
            TransactionKind::Earn => "earn",
            TransactionKind::Spend => "spend",
            TransactionKind::Refund => "refund",
        }
    }

    fn variants() -> (v: Vec<Self>) {
        let mut v: Vec<TransactionKind> = Vec::new();
        v.push(TransactionKind::Earn);
        v.push(TransactionKind::Spend);
        v.push(TransactionKind::Refund);
        assert(v@ =~= Self::all());
        v
    }

    fn kind() -> (s: &'static str) {
        "TransactionKind"
    }
}

/// The three kinds are all there are, and their names differ pairwise.
pub proof fn lemma_transaction_kind_bijective()
    ensures
        is_bijective::<TransactionKind>(),
{
    reveal_strlit("earn");
    reveal_strlit("spend");
    reveal_strlit("refund");
    let all = TransactionKind::all();
    assert forall|t: TransactionKind| #[trigger] all.contains(t) by {
        match t {
            TransactionKind::Earn => assert(all[0] == t),
            TransactionKind::Spend => assert(all[1] == t),
            TransactionKind::Refund => assert(all[2] == t),
        }
    }
    assert("earn"@.len() == 4);
    assert("spend"@.len() == 5);
    assert("refund"@.len() == 6);
}

impl TransactionKind {
    /// What an entry of this kind and of `amount` coins adds to the balance:
    /// earnings and refunds count up, spending counts down.
    pub open spec fn signed(self, amount: int) -> int {
        match self {
            TransactionKind::Earn => amount,
            TransactionKind::Spend => -amount,
            TransactionKind::Refund => amount,
        }
    }
}

impl MarketItem {
    /// The item can be bought at `now`: it is switched on, and `now` lies
    /// in its window, where a bound that is not set does not bind. The
    /// window includes its start and excludes its end.
    pub open spec fn is_available_at(&self, now: i64) -> bool {
        &&& self.available
        &&& (self.available_from matches Some(from) ==> from <= now)
        &&& (self.available_until matches Some(until) ==> until > now)
    }

    pub fn is_available(&self, now: i64) -> (r: bool)
        ensures
            r == self.is_available_at(now),
    {
        if !self.available {
            return false;
        }
        let started = match self.available_from {
            Some(from) => from <= now,
            None => true,
        };
        let open = match self.available_until {
            Some(until) => until > now,
            None => true,
        };
        started && open
    }
}

impl UserWallet {
    /// No amount is negative, and what is there is what was earned less
    /// what was spent.
    pub open spec fn wf(&self) -> bool {
        &&& self.total_coins >= 0
        &&& self.earned_coins >= 0
        &&& self.spent_coins >= 0
        &&& self.total_coins == self.earned_coins - self.spent_coins
    }

    /// The wallet that a user gets on first use: empty.
    pub open spec fn fresh(id: u128, user_id: u128, now: i64) -> UserWallet {
        UserWallet {
            id,
            user_id,
            total_coins: 0,
            earned_coins: 0,
            spent_coins: 0,
            updated_at: now,
            created_at: now,
        }
    }

    /// Whether an entry of `kind` and `amount` can be booked: the amount is
    /// not negative, spending does not exceed what is there, a refund does
    /// not exceed what was spent, and earnings stay within the range of the
    /// counters.
    pub open spec fn can_book(&self, kind: TransactionKind, amount: i32) -> bool {
        &&& amount >= 0
        &&& match kind {
            TransactionKind::Earn => self.earned_coins + amount <= i32::MAX,
            TransactionKind::Spend => amount <= self.total_coins,
            TransactionKind::Refund => amount <= self.spent_coins,
        }
    }

    /// The wallet after an entry of `kind` and `amount` was booked at `now`.
    pub open spec fn booked(self, kind: TransactionKind, amount: i32, now: i64) -> UserWallet {
        match kind {
            TransactionKind::Earn => UserWallet {
                total_coins: (self.total_coins + amount) as i32,
                earned_coins: (self.earned_coins + amount) as i32,
                updated_at: now,
                ..self
            },
            TransactionKind::Spend => UserWallet {
                total_coins: (self.total_coins - amount) as i32,
                spent_coins: (self.spent_coins + amount) as i32,
                updated_at: now,
                ..self
            },
            TransactionKind::Refund => UserWallet {
                total_coins: (self.total_coins + amount) as i32,
                spent_coins: (self.spent_coins - amount) as i32,
                updated_at: now,
                ..self
            },
        }
    }

    /// Whether the amounts of the wallet are in order.
    pub fn is_valid(&self) -> (r: bool)
        ensures
            r == self.wf(),
    {
        self.total_coins >= 0 && self.earned_coins >= 0 && self.spent_coins >= 0
            && self.total_coins as i64 == self.earned_coins as i64 - self.spent_coins as i64
    }

    pub fn new(id: u128, user_id: u128, now: i64) -> (r: UserWallet)
        ensures
            r == UserWallet::fresh(id, user_id, now),
            r.wf(),
    {
        UserWallet {
            id,
            user_id,
            total_coins: 0,
            earned_coins: 0,
            spent_coins: 0,
            updated_at: now,
            created_at: now,
        }
    }

    /// Books an entry of `kind` and `amount` at `now`, or returns nothing
    /// and leaves the wallet alone where the entry cannot be booked.
    pub fn book(&self, kind: TransactionKind, amount: i32, now: i64) -> (r: Option<UserWallet>)
        requires
            self.wf(),
        ensures
            r is Some <==> self.can_book(kind, amount),
            r matches Some(w) ==> w == self.booked(kind, amount, now) && w.wf() && w.total_coins
                == self.total_coins + kind.signed(amount as int),
    {
        if amount < 0 {
            return None;
        }
        match kind {
            TransactionKind::Earn => {
                if amount > i32::MAX - self.earned_coins {
                    return None;
                }
                Some(
                    UserWallet {
                        total_coins: self.total_coins + amount,
                        earned_coins: self.earned_coins + amount,
                        updated_at: now,
                        ..*self
                    },
                )
            },
            TransactionKind::Spend => {
                if amount > self.total_coins {
                    return None;
                }
                Some(
                    UserWallet {
                        total_coins: self.total_coins - amount,
                        spent_coins: self.spent_coins + amount,
                        updated_at: now,
                        ..*self
                    },
                )
            },
            TransactionKind::Refund => {
                if amount > self.spent_coins {
                    return None;
                }
                Some(
                    UserWallet {
                        total_coins: self.total_coins + amount,
                        spent_coins: self.spent_coins - amount,
                        updated_at: now,
                        ..*self
                    },
                )
            },
        }
    }

    /// The three amounts, as they are shown to the user.
    pub fn response(&self) -> (r: WalletResponse)
        ensures
            r == (WalletResponse {
                total_coins: self.total_coins,
                earned_coins: self.earned_coins,
                spent_coins: self.spent_coins,
            }),
    {
        WalletResponse {
            total_coins: self.total_coins,
            earned_coins: self.earned_coins,
            spent_coins: self.spent_coins,
        }
    }
}

} // verus!
