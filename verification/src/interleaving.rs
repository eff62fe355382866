//! Two purchases of one user at the same time.
//!
//! The store lets the two proceed in any order, step by step, but for one
//! rule: the row of a wallet is held by one unit of work at a time, from
//! the moment it is taken to the end of the transaction. This module
//! models the store as far as purchases see it, lets two purchases take
//! their steps in every order that the rule allows, and shows that the
//! outcome is always that of one purchase after the other.
//!
//! The store of the model does not fail: what is written stays written.
//! That a failure of the store undoes what a purchase wrote is the
//! store's part; that every failure leads to a rollback is shown with the
//! purchase itself.

use vstd::prelude::*;
use crate::market_models::UserMarketPurchase;
use crate::market_models::UserWallet;
use crate::purchase::plan_spec;
use crate::purchase::MarketError;
use crate::purchase::PurchasePlan;
use crate::purchase_flow::begin_spec;
use crate::purchase_flow::PurchaseAction;
use crate::purchase_flow::PurchaseFailure;
use crate::purchase_flow::PurchaseFlow;
use crate::purchase_flow::PurchaseOutcome;
use crate::purchase_flow::PurchaseProgress;
use crate::purchase_flow::PurchaseReply;

verus! {

/// What the store holds, as far as purchases see it: the price of every
/// item, the wallet of every user, what every user holds of every item,
/// and the spending that the ledger records, oldest first.
pub struct Books {
    pub prices: Map<u128, i32>,
    pub wallets: Map<u128, UserWallet>,
    pub purchases: Map<(u128, u128), UserMarketPurchase>,
    pub spends: Seq<(u128, i32)>,
}

/// The value under `key`, if the map has one.
pub open spec fn lookup<K, V>(m: Map<K, V>, key: K) -> Option<V> {
    if m.contains_key(key) {
        Some(m[key])
    } else {
        None
    }
}

impl Books {
    /// What the store replies to `action` at the time `now`.
    pub open spec fn reply_of(self, action: PurchaseAction, now: i64) -> PurchaseReply {
        match action {
            PurchaseAction::ReadPrice { item_id } => PurchaseReply::Price(
                lookup(self.prices, item_id),
            ),
            PurchaseAction::LockWallet { user_id } => PurchaseReply::Wallet(
                lookup(self.wallets, user_id),
                now,
            ),
            PurchaseAction::ReadPurchase { user_id, item_id } => PurchaseReply::Purchase(
                lookup(self.purchases, (user_id, item_id)),
            ),
            _ => PurchaseReply::Done,
        }
    }

    /// What the store holds after `action`.
    pub open spec fn apply(self, action: PurchaseAction) -> Books {
        match action {
            PurchaseAction::WriteWallet { wallet } => Books {
                wallets: self.wallets.insert(wallet.user_id, wallet),
                ..self
            },
            PurchaseAction::AppendSpend { user_id, amount } => Books {
                spends: self.spends.push((user_id, amount)),
                ..self
            },
            PurchaseAction::WritePurchase { purchase } => Books {
                purchases: self.purchases.insert((purchase.user_id, purchase.item_id), purchase),
                ..self
            },
            _ => self,
        }
    }
}

/// An upper bound on the actions that a purchase has left.
pub open spec fn steps_left(p: PurchaseProgress) -> nat {
    match p {
        PurchaseProgress::Continue(f) => f.step.rank(),
        PurchaseProgress::Finished(_) => 0,
    }
}

/// The store and the outcome when the purchase `p` runs to its end with
/// nothing else going on.
pub open spec fn finish(books: Books, p: PurchaseProgress, now: i64) -> (Books, PurchaseOutcome)
    decreases steps_left(p),
{
    match p {
        PurchaseProgress::Finished(outcome) => (books, outcome),
        PurchaseProgress::Continue(f) => {
            let action = f.action_spec();
            let next = f.next_spec(books.reply_of(action, now));
            if steps_left(next) < steps_left(p) {
                finish(books.apply(action), next, now)
            } else {
                (books, PurchaseOutcome::Failed(PurchaseFailure::StoreFailed))
            }
        },
    }
}

/// The store and two purchases of one user under way. `holder` says which
/// of the two holds the row of the user's wallet, if either does: `false`
/// stands for the first purchase and `true` for the second. `first` says
/// which of the two took the row first, once one has.
pub struct World {
    pub books: Books,
    pub holder: Option<bool>,
    pub first: Option<bool>,
    pub a: PurchaseProgress,
    pub now_a: i64,
    pub b: PurchaseProgress,
    pub now_b: i64,
}

impl World {
    /// The purchase that `who` stands for.
    pub open spec fn progress(self, who: bool) -> PurchaseProgress {
        if who {
            self.b
        } else {
            self.a
        }
    }

    /// The time of the store that `who` is given with the wallet.
    pub open spec fn now(self, who: bool) -> i64 {
        if who {
            self.now_b
        } else {
            self.now_a
        }
    }

    /// Whether `who` can take its next step: it has one, and if the step is
    /// to take the row of the wallet, nobody holds the row.
    pub open spec fn enabled(self, who: bool) -> bool {
        self.progress(who) matches PurchaseProgress::Continue(f) && (f.action_spec() is LockWallet
            ==> self.holder is None)
    }

    /// The world after `who` took its next step.
    pub open spec fn step(self, who: bool) -> World {
        let f = self.progress(who)->Continue_0;
        let action = f.action_spec();
        let next = f.next_spec(self.books.reply_of(action, self.now(who)));
        let holder = if action is LockWallet {
            Some(who)
        } else if action.closes() && self.holder == Some(who) {
            None
        } else {
            self.holder
        };
        let first = if action is LockWallet && self.first is None {
            Some(who)
        } else {
            self.first
        };
        World {
            books: self.books.apply(action),
            holder,
            first,
            a: if who {
                self.a
            } else {
                next
            },
            b: if who {
                next
            } else {
                self.b
            },
            ..self
        }
    }

    /// The world after the steps of `schedule` were taken in turn, each by
    /// the purchase it names; nothing if the schedule names a purchase that
    /// cannot take a step at its turn.
    pub open spec fn run(self, schedule: Seq<bool>) -> Option<World>
        decreases schedule.len(),
    {
        if schedule.len() == 0 {
            Some(self)
        } else if self.enabled(schedule[0]) {
            self.step(schedule[0]).run(schedule.drop_first())
        } else {
            None
        }
    }

    /// The store and the two outcomes if from here on `who` runs to its
    /// end before the other purchase takes another step.
    pub open spec fn serial(self, who: bool) -> (Books, PurchaseOutcome, PurchaseOutcome) {
        let one = finish(self.books, self.progress(who), self.now(who));
        let two = finish(one.0, self.progress(!who), self.now(!who));
        if who {
            (two.0, two.1, one.1)
        } else {
            (two.0, one.1, two.1)
        }
    }

    /// Both purchases have ended, with the outcomes and the store of
    /// `end`.
    pub open spec fn ended_as(self, end: (Books, PurchaseOutcome, PurchaseOutcome)) -> bool {
        &&& self.books == end.0
        &&& self.a == PurchaseProgress::Finished(end.1)
        &&& self.b == PurchaseProgress::Finished(end.2)
    }
}

/// The purchase has not yet asked for the row of the wallet: all it has
/// done is to open its transaction and to look up the price.
pub open spec fn is_early(p: PurchaseProgress) -> bool {
    p matches PurchaseProgress::Continue(f) ==> f.step is Beginning || f.step is ReadingPrice
        || f.step is LockingWallet || f.step is RollingBack
}

/// The purchase has been given the row of the wallet and has not yet ended
/// its transaction.
pub open spec fn is_inside(p: PurchaseProgress) -> bool {
    p matches PurchaseProgress::Continue(f) && !(f.step is Beginning || f.step is ReadingPrice
        || f.step is LockingWallet)
}

/// The world at the start: two purchases that have just begun, nobody
/// holding anything.
pub open spec fn start(
    books: Books,
    user: u128,
    item_a: u128,
    quantity_a: i32,
    purchase_id_a: u128,
    now_a: i64,
    item_b: u128,
    quantity_b: i32,
    purchase_id_b: u128,
    now_b: i64,
) -> World {
    World {
        books,
        holder: None,
        first: None,
        a: begin_spec(user, item_a, quantity_a, purchase_id_a),
        now_a,
        b: begin_spec(user, item_b, quantity_b, purchase_id_b),
        now_b,
    }
}

/// What stays true of a world whatever steps are taken: a purchase that
/// does not hold the row of the wallet has not got beyond asking for it or
/// has ended; only a purchase under way holds the row; the purchase that
/// took the row first holds it still or has ended; and running that
/// purchase to its end, and then the other, leads to the target of that
/// order. Before either has taken the row, both orders lead to their
/// targets.
pub open spec fn holds_steady(
    w: World,
    target_a_first: (Books, PurchaseOutcome, PurchaseOutcome),
    target_b_first: (Books, PurchaseOutcome, PurchaseOutcome),
) -> bool {
    &&& w.holder != Some(false) ==> is_early(w.a)
    &&& w.holder != Some(true) ==> is_early(w.b)
    &&& w.holder matches Some(who) ==> is_inside(w.progress(who)) && w.first is Some
    &&& w.first matches Some(who) ==> w.holder == Some(who) || w.progress(who) is Finished
    &&& w.first == Some(false) ==> w.serial(false) == target_a_first
    &&& w.first == Some(true) ==> w.serial(true) == target_b_first
    &&& w.first is None ==> w.serial(false) == target_a_first && w.serial(true) == target_b_first
        && w.holder is None
}

/// Running a purchase alone from where it stands is its next step and
/// then running it alone from there.
pub proof fn lemma_finish_unfolds(books: Books, f: PurchaseFlow, now: i64)
    ensures
        finish(books, PurchaseProgress::Continue(f), now) == finish(
            books.apply(f.action_spec()),
            f.next_spec(books.reply_of(f.action_spec(), now)),
            now,
        ),
{
    crate::purchase_flow::lemma_purchase_descends(f, books.reply_of(f.action_spec(), now));
}

/// Running a purchase alone changes no price.
pub proof fn lemma_finish_keeps_prices(books: Books, p: PurchaseProgress, now: i64)
    ensures
        finish(books, p, now).0.prices == books.prices,
    decreases steps_left(p),
{
    if let PurchaseProgress::Continue(f) = p {
        let action = f.action_spec();
        let next = f.next_spec(books.reply_of(action, now));
        if steps_left(next) < steps_left(p) {
            lemma_finish_keeps_prices(books.apply(action), next, now);
        }
    }
}

/// A step that a purchase takes before it has the row of the wallet leads
/// to the same end in every store with the same prices: such a step reads
/// nothing but a price and writes nothing.
pub proof fn lemma_early_step_catches_up(books: Books, later: Books, f: PurchaseFlow, now: i64)
    requires
        is_early(PurchaseProgress::Continue(f)),
        !(f.action_spec() is LockWallet),
        books.prices == later.prices,
    ensures
        books.apply(f.action_spec()) == books,
        finish(later, f.next_spec(books.reply_of(f.action_spec(), now)), now) == finish(
            later,
            PurchaseProgress::Continue(f),
            now,
        ),
        is_early(f.next_spec(books.reply_of(f.action_spec(), now))),
{
    lemma_finish_unfolds(later, f, now);
}

/// Every step that the rule allows keeps what holds steady.
pub proof fn lemma_step_holds_steady(
    w: World,
    who: bool,
    target_a_first: (Books, PurchaseOutcome, PurchaseOutcome),
    target_b_first: (Books, PurchaseOutcome, PurchaseOutcome),
)
    requires
        holds_steady(w, target_a_first, target_b_first),
        w.enabled(who),
    ensures
        holds_steady(w.step(who), target_a_first, target_b_first),
{
    let f = w.progress(who)->Continue_0;
    let now = w.now(who);
    let action = f.action_spec();
    let next = f.next_spec(w.books.reply_of(action, now));
    let w2 = w.step(who);
    crate::purchase_flow::lemma_purchase_descends(f, w.books.reply_of(action, now));
    lemma_finish_unfolds(w.books, f, now);
    // The order in which `who` comes first is kept by unfolding.
    assert(w2.serial(who) == w.serial(who));
    let other = w.progress(!who);
    if w.holder == Some(who) || action is LockWallet {
        // `who` is or becomes the holder: the other purchase is early, and
        // the order that matters is the one with the first holder in front.
        if w.first == Some(!who) {
            // The other purchase held the row before and has ended.
            assert(other is Finished);
            assert(w2.serial(!who) == w.serial(!who));
        }
    } else {
        // An early step of `who`: it also keeps the order in which the
        // other purchase comes first.
        let later = finish(w.books, other, w.now(!who)).0;
        lemma_finish_keeps_prices(w.books, other, w.now(!who));
        lemma_early_step_catches_up(w.books, later, f, now);
        assert(w2.serial(!who) == w.serial(!who));
    }
}

/// What holds steady holds of the world at the end of every schedule that the
/// rule allows.
pub proof fn lemma_run_holds_steady(
    w: World,
    schedule: Seq<bool>,
    target_a_first: (Books, PurchaseOutcome, PurchaseOutcome),
    target_b_first: (Books, PurchaseOutcome, PurchaseOutcome),
)
    requires
        holds_steady(w, target_a_first, target_b_first),
        w.run(schedule) is Some,
    ensures
        holds_steady(w.run(schedule)->0, target_a_first, target_b_first),
    decreases schedule.len(),
{
    if schedule.len() > 0 {
        lemma_step_holds_steady(w, schedule[0], target_a_first, target_b_first);
        lemma_run_holds_steady(
            w.step(schedule[0]),
            schedule.drop_first(),
            target_a_first,
            target_b_first,
        );
    }
}

/// Two purchases of one user, begun at the same time and run to their
/// ends in any order of steps that the rule of the wallet's row allows,
/// end as if one of them had run from its first step to its last before
/// the other took its first: the store and both outcomes are those of one
/// of the two orders.
pub proof fn lemma_purchases_are_serial(
    books: Books,
    user: u128,
    item_a: u128,
    quantity_a: i32,
    purchase_id_a: u128,
    now_a: i64,
    item_b: u128,
    quantity_b: i32,
    purchase_id_b: u128,
    now_b: i64,
    schedule: Seq<bool>,
)
    requires
        start(
            books,
            user,
            item_a,
            quantity_a,
            purchase_id_a,
            now_a,
            item_b,
            quantity_b,
            purchase_id_b,
            now_b,
        ).run(schedule) matches Some(w) && w.a is Finished && w.b is Finished,
    ensures
        ({
            let w0 = start(
                books,
                user,
                item_a,
                quantity_a,
                purchase_id_a,
                now_a,
                item_b,
                quantity_b,
                purchase_id_b,
                now_b,
            );
            let end = w0.run(schedule)->0;
            end.ended_as(w0.serial(false)) || end.ended_as(w0.serial(true))
        }),
{
    let w0 = start(
        books,
        user,
        item_a,
        quantity_a,
        purchase_id_a,
        now_a,
        item_b,
        quantity_b,
        purchase_id_b,
        now_b,
    );
    assert(holds_steady(w0, w0.serial(false), w0.serial(true)));
    lemma_run_holds_steady(w0, schedule, w0.serial(false), w0.serial(true));
    let end = w0.run(schedule)->0;
    assert(end.serial(false) == (end.books, end.a->Finished_0, end.b->Finished_0));
    assert(end.serial(true) == (end.books, end.a->Finished_0, end.b->Finished_0));
}

/// As long as a purchase is under way, one of the two can take a step:
/// nobody waits for a row that is never given back.
pub proof fn lemma_someone_can_step(
    w: World,
    target_a_first: (Books, PurchaseOutcome, PurchaseOutcome),
    target_b_first: (Books, PurchaseOutcome, PurchaseOutcome),
)
    requires
        holds_steady(w, target_a_first, target_b_first),
        w.a is Continue || w.b is Continue,
    ensures
        w.enabled(false) || w.enabled(true),
{
}

impl Books {
    /// What a purchase of `quantity` of `item` by `user` writes in this
    /// store if it goes through, or why it is refused.
    pub open spec fn decision(
        self,
        user: u128,
        item: u128,
        quantity: i32,
        purchase_id: u128,
        now: i64,
    ) -> Result<PurchasePlan, MarketError> {
        plan_spec(
            user,
            item,
            quantity,
            lookup(self.prices, item),
            lookup(self.wallets, user),
            lookup(self.purchases, (user, item)),
            purchase_id,
            now,
        )
    }

    /// The store after a purchase by `user` wrote what `plan` says.
    pub open spec fn written(self, user: u128, plan: PurchasePlan) -> Books {
        Books {
            wallets: self.wallets.insert(plan.wallet.user_id, plan.wallet),
            purchases: self.purchases.insert(
                (plan.purchase.user_id, plan.purchase.item_id),
                plan.purchase,
            ),
            spends: self.spends.push((user, plan.total_cost)),
            ..self
        }
    }
}

/// A purchase that runs alone does what the decision on the store says: it
/// writes the plan and ends with the purchase row, or it is refused and
/// leaves the store as it was.
pub proof fn lemma_finish_is_decision(
    books: Books,
    user: u128,
    item: u128,
    quantity: i32,
    purchase_id: u128,
    now: i64,
)
    requires
        lookup(books.wallets, user) matches Some(w) ==> w.wf(),
    ensures
        finish(books, begin_spec(user, item, quantity, purchase_id), now) == match books.decision(
            user,
            item,
            quantity,
            purchase_id,
            now,
        ) {
            Ok(plan) => (books.written(user, plan), PurchaseOutcome::Bought(plan.purchase)),
            Err(e) => (books, PurchaseOutcome::Failed(PurchaseFailure::Refused(e))),
        },
{
    reveal_with_fuel(finish, 10);
    match books.decision(user, item, quantity, purchase_id, now) {
        Ok(plan) => {
            let end = finish(books, begin_spec(user, item, quantity, purchase_id), now).0;
            assert(end.wallets =~= books.written(user, plan).wallets);
            assert(end.purchases =~= books.written(user, plan).purchases);
            assert(end.spends =~= books.written(user, plan).spends);
        },
        Err(_) => {},
    }
}

/// Two purchases of one user at the same time, each of which the wallet
/// could pay alone but not both: whatever the order of their steps, one
/// goes through and the other is refused for want of funds, and the wallet
/// ends with what it held less the cost of the one that went through,
/// which is not less than nothing.
pub proof fn lemma_concurrent_purchases_never_overdraw(
    books: Books,
    user: u128,
    item_a: u128,
    quantity_a: i32,
    purchase_id_a: u128,
    now_a: i64,
    item_b: u128,
    quantity_b: i32,
    purchase_id_b: u128,
    now_b: i64,
    schedule: Seq<bool>,
)
    requires
        books.wallets.contains_key(user),
        books.wallets[user].wf(),
        books.wallets[user].user_id == user,
        books.decision(user, item_a, quantity_a, purchase_id_a, now_a) matches Ok(plan_a)
            && books.decision(user, item_b, quantity_b, purchase_id_b, now_b) matches Ok(plan_b)
            && plan_a.total_cost + plan_b.total_cost > books.wallets[user].total_coins,
        start(
            books,
            user,
            item_a,
            quantity_a,
            purchase_id_a,
            now_a,
            item_b,
            quantity_b,
            purchase_id_b,
            now_b,
        ).run(schedule) matches Some(w) && w.a is Finished && w.b is Finished,
    ensures
        ({
            let plan_a = books.decision(user, item_a, quantity_a, purchase_id_a, now_a)->Ok_0;
            let plan_b = books.decision(user, item_b, quantity_b, purchase_id_b, now_b)->Ok_0;
            let end = start(
                books,
                user,
                item_a,
                quantity_a,
                purchase_id_a,
                now_a,
                item_b,
                quantity_b,
                purchase_id_b,
                now_b,
            ).run(schedule)->0;
            let refused = PurchaseProgress::Finished(
                PurchaseOutcome::Failed(PurchaseFailure::Refused(MarketError::InsufficientFunds)),
            );
            &&& end.books.wallets.contains_key(user)
            &&& end.books.wallets[user].total_coins >= 0
            &&& {
                ||| end.a == PurchaseProgress::Finished(PurchaseOutcome::Bought(plan_a.purchase))
                    && end.b == refused && end.books == books.written(user, plan_a)
                    && end.books.wallets[user].total_coins == books.wallets[user].total_coins
                    - plan_a.total_cost
                ||| end.b == PurchaseProgress::Finished(PurchaseOutcome::Bought(plan_b.purchase))
                    && end.a == refused && end.books == books.written(user, plan_b)
                    && end.books.wallets[user].total_coins == books.wallets[user].total_coins
                    - plan_b.total_cost
            }
        }),
{
    let plan_a = books.decision(user, item_a, quantity_a, purchase_id_a, now_a)->Ok_0;
    let plan_b = books.decision(user, item_b, quantity_b, purchase_id_b, now_b)->Ok_0;
    lemma_purchases_are_serial(
        books,
        user,
        item_a,
        quantity_a,
        purchase_id_a,
        now_a,
        item_b,
        quantity_b,
        purchase_id_b,
        now_b,
        schedule,
    );
    lemma_finish_is_decision(books, user, item_a, quantity_a, purchase_id_a, now_a);
    lemma_finish_is_decision(books, user, item_b, quantity_b, purchase_id_b, now_b);
    lemma_finish_is_decision(
        books.written(user, plan_a),
        user,
        item_b,
        quantity_b,
        purchase_id_b,
        now_b,
    );
    lemma_finish_is_decision(
        books.written(user, plan_b),
        user,
        item_a,
        quantity_a,
        purchase_id_a,
        now_a,
    );
}

} // verus!
