//! Any number of purchases of one user at the same time.
//!
//! The store is that of two purchases at a time, and so is its rule: the
//! row of the wallet is held by one purchase at a time, from the moment it
//! is taken to the end of the transaction. Here any number of purchases
//! take their steps in every order that the rule allows, and the outcome is
//! shown to be that of the purchases running one after the other in some
//! order; the wallet then never holds less than nothing, and what has left
//! it is what the ledger has gained.

use vstd::prelude::*;
use crate::interleaving::finish;
use crate::interleaving::is_early;
use crate::interleaving::is_inside;
use crate::interleaving::lemma_early_step_catches_up;
use crate::interleaving::lemma_finish_is_decision;
use crate::interleaving::lemma_finish_keeps_prices;
use crate::interleaving::lemma_finish_unfolds;
use crate::interleaving::Books;
use crate::purchase_flow::begin_spec;
use crate::purchase_flow::PurchaseProgress;

verus! {

/// The store and any number of purchases of one user under way. `holder`
/// says which of them holds the row of the user's wallet, if any does;
/// `nows` holds for each purchase the time of the store that it is given
/// with the wallet.
pub struct Crowd {
    pub books: Books,
    pub holder: Option<int>,
    pub units: Seq<PurchaseProgress>,
    pub nows: Seq<i64>,
}

impl Crowd {
    /// `who` is one of the purchases.
    pub open spec fn has(self, who: int) -> bool {
        0 <= who < self.units.len()
    }

    /// Whether `who` can take its next step: it has one, and if the step is
    /// to take the row of the wallet, nobody holds the row.
    pub open spec fn enabled(self, who: int) -> bool {
        &&& self.has(who)
        &&& self.units[who] matches PurchaseProgress::Continue(f)
        &&& f.action_spec() is LockWallet ==> self.holder is None
    }

    /// The crowd after `who` took its next step.
    pub open spec fn step(self, who: int) -> Crowd {
        let f = self.units[who]->Continue_0;
        let action = f.action_spec();
        let next = f.next_spec(self.books.reply_of(action, self.nows[who]));
        Crowd {
            books: self.books.apply(action),
            holder: if action is LockWallet {
                Some(who)
            } else if action.closes() && self.holder == Some(who) {
                None
            } else {
                self.holder
            },
            units: self.units.update(who, next),
            nows: self.nows,
        }
    }

    /// The crowd after the steps of `schedule` were taken in turn, each by
    /// the purchase it names; nothing if the schedule names a purchase that
    /// cannot take a step at its turn.
    pub open spec fn run(self, schedule: Seq<int>) -> Option<Crowd>
        decreases schedule.len(),
    {
        if schedule.len() == 0 {
            Some(self)
        } else if self.enabled(schedule[0]) {
            self.step(schedule[0]).run(schedule.drop_first())
        } else {
            None
        }
    }

    /// Every purchase has ended.
    pub open spec fn all_finished(self) -> bool {
        forall|u: int| self.has(u) ==> (#[trigger] self.units[u]) is Finished
    }

    /// The crowd after the purchase `u` ran to its end with nothing else
    /// going on.
    pub open spec fn finish_unit(self, u: int) -> Crowd {
        if self.has(u) {
            let end = finish(self.books, self.units[u], self.nows[u]);
            Crowd {
                books: end.0,
                holder: if self.holder == Some(u) {
                    None
                } else {
                    self.holder
                },
                units: self.units.update(u, PurchaseProgress::Finished(end.1)),
                nows: self.nows,
            }
        } else {
            self
        }
    }

    /// The crowd after the purchases that `order` names ran one after the
    /// other, each from where it stands to its end.
    pub open spec fn serial(self, order: Seq<int>) -> Crowd
        decreases order.len(),
    {
        if order.len() == 0 {
            self
        } else {
            self.finish_unit(order[0]).serial(order.drop_first())
        }
    }

    /// The store and the purchases are those of `end`.
    pub open spec fn same_end(self, end: Crowd) -> bool {
        self.books == end.books && self.units == end.units
    }

    /// `order` names every purchase that has not ended, each once, and no
    /// other; and if a purchase holds the row of the wallet, `order` begins
    /// with it.
    pub open spec fn is_order(self, order: Seq<int>) -> bool {
        &&& order.no_duplicates()
        &&& forall|k: int|
            0 <= k < order.len() ==> self.has(#[trigger] order[k]) && self.units[order[k]] is Continue
        &&& forall|u: int| self.has(u) && (#[trigger] self.units[u]) is Continue ==> order.contains(u)
        &&& self.holder matches Some(h) ==> order.len() > 0 && order[0] == h
    }

    /// A purchase that does not hold the row of the wallet has not got
    /// beyond asking for it or has ended, and the purchase that holds the
    /// row is inside its transaction.
    pub open spec fn steady(self) -> bool {
        &&& forall|u: int| self.has(u) && self.holder != Some(u) ==> is_early(#[trigger] self.units[u])
        &&& self.holder matches Some(h) ==> self.has(h) && is_inside(self.units[h])
    }

    /// In `ahead` the purchase `who`, which does not hold the row of the
    /// wallet and is not about to ask for it, has taken one step more than
    /// here; nothing else differs.
    pub open spec fn is_behind(self, ahead: Crowd, who: int) -> bool {
        &&& self.has(who)
        &&& self.holder != Some(who)
        &&& is_early(self.units[who])
        &&& self.units[who] matches PurchaseProgress::Continue(f)
        &&& !(f.action_spec() is LockWallet)
        &&& ahead.books == self.books
        &&& ahead.holder == self.holder
        &&& ahead.nows == self.nows
        &&& ahead.units == self.units.update(
            who,
            f.next_spec(self.books.reply_of(f.action_spec(), self.nows[who])),
        )
    }
}

/// Every step that the rule allows keeps the crowd steady.
pub proof fn lemma_crowd_step_steady(w: Crowd, who: int)
    requires
        w.steady(),
        w.enabled(who),
    ensures
        w.step(who).steady(),
{
    let w2 = w.step(who);
    assert forall|u: int| w2.has(u) && w2.holder != Some(u) implies is_early(
        #[trigger] w2.units[u],
    ) by {
        if u != who {
            assert(w2.units[u] == w.units[u]);
        }
    }
}

/// Running the purchases of `a` and then those of `b` is running those of
/// `a + b`.
pub proof fn lemma_serial_concat(w: Crowd, a: Seq<int>, b: Seq<int>)
    ensures
        w.serial(a + b) == w.serial(a).serial(b),
    decreases a.len(),
{
    if a.len() == 0 {
        assert(a + b =~= b);
    } else {
        assert((a + b).drop_first() =~= a.drop_first() + b);
        lemma_serial_concat(w.finish_unit(a[0]), a.drop_first(), b);
    }
}

/// A purchase that has ended stays as it is while the others run, and
/// running it once more changes nothing.
pub proof fn lemma_serial_keeps_finished(w: Crowd, order: Seq<int>, u: int)
    requires
        w.has(u),
        w.units[u] is Finished,
    ensures
        w.serial(order).has(u),
        w.serial(order).units[u] == w.units[u],
        w.finish_unit(u).books == w.books,
        w.finish_unit(u).units == w.units,
    decreases order.len(),
{
    assert(w.finish_unit(u).units =~= w.units);
    if order.len() > 0 {
        let w1 = w.finish_unit(order[0]);
        assert(w1.units[u] == w.units[u]);
        lemma_serial_keeps_finished(w1, order.drop_first(), u);
    }
}

/// A step that a purchase takes before it asks for the row of the wallet
/// makes no difference to a run in which the purchases run one after the
/// other and this one is among them.
pub proof fn lemma_early_step_commutes(x: Crowd, y: Crowd, who: int, order: Seq<int>)
    requires
        x.is_behind(y, who),
        order.contains(who),
    ensures
        x.serial(order) == y.serial(order),
    decreases order.len(),
{
    let f = x.units[who]->Continue_0;
    let now = x.nows[who];
    let u = order[0];
    let x1 = x.finish_unit(u);
    let y1 = y.finish_unit(u);
    if u == who {
        lemma_early_step_catches_up(x.books, x.books, f, now);
        assert(x1.units =~= y1.units);
        assert(x1 == y1);
    } else {
        if x.has(u) {
            lemma_finish_keeps_prices(x.books, x.units[u], x.nows[u]);
            assert(y.units[u] == x.units[u]);
            assert(y1.units =~= x1.units.update(
                who,
                f.next_spec(x1.books.reply_of(f.action_spec(), now)),
            ));
        }
        assert(x1.is_behind(y1, who));
        let k = choose|k: int| 0 <= k < order.len() && order[k] == who;
        assert(order.drop_first()[k - 1] == who);
        lemma_early_step_commutes(x1, y1, who, order.drop_first());
    }
}

/// A step of one purchase followed by a run of the purchases one after
/// the other ends as a run of the purchases one after the other alone.
pub proof fn lemma_step_is_absorbed(w: Crowd, who: int, order: Seq<int>, end: Crowd) -> (earlier:
    Seq<int>)
    requires
        w.steady(),
        w.enabled(who),
        w.step(who).is_order(order),
        w.step(who).serial(order).same_end(end),
    ensures
        w.is_order(earlier),
        w.serial(earlier).same_end(end),
{
    let f = w.units[who]->Continue_0;
    let now = w.nows[who];
    let w2 = w.step(who);
    lemma_crowd_step_steady(w, who);
    lemma_finish_unfolds(w.books, f, now);
    assert forall|u: int| w.has(u) && u != who implies w2.units[u] == w.units[u] by {}
    if w2.holder == Some(who) {
        // The purchase holds the row after its step: it runs first.
        assert(order[0] == who);
        assert(w.finish_unit(who).units =~= w2.finish_unit(who).units);
        assert(w.finish_unit(who) == w2.finish_unit(who));
        assert forall|u: int| w.has(u) && (#[trigger] w.units[u]) is Continue implies order.contains(
            u,
        ) by {
            if u != who {
                assert(w2.units[u] is Continue);
            }
        }
        order
    } else if w2.units[who] is Finished && w.holder is Some && w.holder != Some(who) {
        // The purchase has ended with this step before it ever asked for
        // the row, while another holds the row: it may as well run last.
        let earlier = order + seq![who];
        assert(w.is_behind(w2, who));
        assert(earlier[order.len() as int] == who);
        lemma_early_step_commutes(w, w2, who, earlier);
        lemma_serial_concat(w2, order, seq![who]);
        let last = w2.serial(order);
        lemma_serial_keeps_finished(w2, order, who);
        lemma_serial_keeps_finished(last, Seq::empty(), who);
        assert(last.serial(seq![who]) == last.finish_unit(who)) by {
            reveal_with_fuel(Crowd::serial, 2);
            assert(seq![who].drop_first() =~= Seq::<int>::empty());
        }
        assert forall|i: int, j: int|
            0 <= i < earlier.len() && 0 <= j < earlier.len() && i != j implies earlier[i]
            != earlier[j] by {
            if i < order.len() && j < order.len() {
                assert(order[i] != order[j]);
            } else if i < order.len() {
                assert(w2.units[order[i]] is Continue);
            } else {
                assert(w2.units[order[j]] is Continue);
            }
        }
        assert forall|k: int| 0 <= k < earlier.len() implies w.has(#[trigger] earlier[k])
            && w.units[earlier[k]] is Continue by {
            if k < order.len() {
                assert(earlier[k] == order[k]);
                assert(w2.units[order[k]] is Continue);
            }
        }
        assert forall|u: int| w.has(u) && (#[trigger] w.units[u]) is Continue implies earlier.contains(
            u,
        ) by {
            if u != who {
                assert(w2.units[u] is Continue);
                let k = choose|k: int| 0 <= k < order.len() && order[k] == u;
                assert(earlier[k] == u);
            }
        }
        assert(earlier[0] == order[0]);
        earlier
    } else if w2.units[who] is Finished {
        // The purchase has ended with this step and nobody else holds the
        // row: it runs first.
        let earlier = seq![who] + order;
        assert(earlier.drop_first() =~= order);
        assert(w.finish_unit(who).units =~= w2.units);
        assert(w.finish_unit(who).books == w2.books);
        assert(w.finish_unit(who) == w2);
        assert forall|i: int, j: int|
            0 <= i < earlier.len() && 0 <= j < earlier.len() && i != j implies earlier[i]
            != earlier[j] by {
            if i > 0 && j > 0 {
                assert(order[i - 1] != order[j - 1]);
            } else if i > 0 {
                assert(w2.units[order[i - 1]] is Continue);
            } else {
                assert(w2.units[order[j - 1]] is Continue);
            }
        }
        assert forall|k: int| 0 <= k < earlier.len() implies w.has(#[trigger] earlier[k])
            && w.units[earlier[k]] is Continue by {
            if k > 0 {
                assert(earlier[k] == order[k - 1]);
                assert(w2.units[order[k - 1]] is Continue);
            }
        }
        assert forall|u: int| w.has(u) && (#[trigger] w.units[u]) is Continue implies earlier.contains(
            u,
        ) by {
            if u != who {
                assert(w2.units[u] is Continue);
                let k = choose|k: int| 0 <= k < order.len() && order[k] == u;
                assert(earlier[k + 1] == u);
            } else {
                assert(earlier[0] == who);
            }
        }
        earlier
    } else {
        // A step before the row is asked for: the purchase may as well
        // take it when its turn comes.
        assert(w.is_behind(w2, who));
        assert(w2.units[who] is Continue);
        assert(order.contains(who));
        lemma_early_step_commutes(w, w2, who, order);
        assert forall|u: int| w.has(u) && (#[trigger] w.units[u]) is Continue implies order.contains(
            u,
        ) by {
            if u != who {
                assert(w2.units[u] is Continue);
            }
        }
        order
    }
}

/// The purchases of a steady crowd that run to their ends in any order of
/// steps that the rule allows end as they would running one after the
/// other in the order that is returned, which names every purchase that
/// had not ended, each once.
pub proof fn lemma_crowd_is_serial(w: Crowd, schedule: Seq<int>) -> (order: Seq<int>)
    requires
        w.steady(),
        w.run(schedule) matches Some(end) && end.all_finished(),
    ensures
        w.is_order(order),
        w.serial(order).same_end(w.run(schedule)->0),
    decreases schedule.len(),
{
    if schedule.len() == 0 {
        Seq::empty()
    } else {
        let who = schedule[0];
        lemma_crowd_step_steady(w, who);
        let later = lemma_crowd_is_serial(w.step(who), schedule.drop_first());
        lemma_step_is_absorbed(w, who, later, w.run(schedule)->0)
    }
}

/// What the ledger says that `user` has spent.
pub open spec fn spent_in_ledger(spends: Seq<(u128, i32)>, user: u128) -> int
    decreases spends.len(),
{
    if spends.len() == 0 {
        0
    } else {
        spent_in_ledger(spends.drop_last(), user) + if spends.last().0 == user {
            spends.last().1 as int
        } else {
            0
        }
    }
}

/// The wallet of `user` is there and in order, and what it holds and what
/// the ledger says the user has spent add up to `funds`.
pub open spec fn funds_add_up(books: Books, user: u128, funds: int) -> bool {
    &&& books.wallets.contains_key(user)
    &&& books.wallets[user].wf()
    &&& books.wallets[user].user_id == user
    &&& books.wallets[user].total_coins + spent_in_ledger(books.spends, user) == funds
}

/// The purchase is one of `user` that has just begun, or it has ended.
pub open spec fn is_request_of(p: PurchaseProgress, user: u128) -> bool {
    p matches PurchaseProgress::Continue(f) ==> p == begin_spec(
        user,
        f.item_id,
        f.quantity,
        f.purchase_id,
    )
}

/// The crowd at the start: purchases of `user` that have just begun, nobody
/// holding anything.
pub open spec fn is_start(w: Crowd, user: u128) -> bool {
    &&& w.holder is None
    &&& forall|u: int| w.has(u) ==> is_request_of(#[trigger] w.units[u], user)
}

/// A purchase that runs alone leaves the funds adding up: what it takes
/// from the wallet is what it adds to the ledger.
pub proof fn lemma_finish_keeps_funds(
    books: Books,
    p: PurchaseProgress,
    now: i64,
    user: u128,
    funds: int,
)
    requires
        funds_add_up(books, user, funds),
        is_request_of(p, user),
    ensures
        funds_add_up(finish(books, p, now).0, user, funds),
{
    if let PurchaseProgress::Continue(f) = p {
        lemma_finish_is_decision(books, user, f.item_id, f.quantity, f.purchase_id, now);
        match books.decision(user, f.item_id, f.quantity, f.purchase_id, now) {
            Ok(plan) => {
                let after = books.written(user, plan);
                assert(after.spends.drop_last() =~= books.spends);
            },
            Err(_) => {},
        }
    }
}

/// Purchases of one user that run one after the other leave the funds
/// adding up after each of them.
pub proof fn lemma_serial_keeps_funds(w: Crowd, order: Seq<int>, user: u128, funds: int)
    requires
        funds_add_up(w.books, user, funds),
        forall|u: int| w.has(u) ==> is_request_of(#[trigger] w.units[u], user),
    ensures
        funds_add_up(w.serial(order).books, user, funds),
    decreases order.len(),
{
    if order.len() > 0 {
        let u = order[0];
        let w1 = w.finish_unit(u);
        if w.has(u) {
            lemma_finish_keeps_funds(w.books, w.units[u], w.nows[u], user, funds);
        }
        assert forall|v: int| w1.has(v) implies is_request_of(#[trigger] w1.units[v], user) by {
            if v != u {
                assert(w1.units[v] == w.units[v]);
            }
        }
        lemma_serial_keeps_funds(w1, order.drop_first(), user, funds);
    }
}

/// Any number of purchases of one user, begun at the same time and run to
/// their ends in any order of steps that the rule of the wallet's row
/// allows, end as if they had run one after the other in some order that
/// names each of them once. After
/// each purchase of that order, and so at the end, the wallet is in order
/// and holds no less than nothing, and what it holds is what it held at
/// the start less what the ledger has gained: the costs of the purchases
/// that went through.
pub proof fn lemma_many_purchases_never_overdraw(
    w: Crowd,
    user: u128,
    funds: int,
    schedule: Seq<int>,
)
    requires
        is_start(w, user),
        funds_add_up(w.books, user, funds),
        w.run(schedule) matches Some(end) && end.all_finished(),
    ensures
        exists|order: Seq<int>|
            {
                &&& #[trigger] w.serial(order).same_end(w.run(schedule)->0)
                &&& w.is_order(order)
                &&& forall|k: int|
                    0 <= k <= order.len() ==> funds_add_up(
                        #[trigger] w.serial(order.take(k)).books,
                        user,
                        funds,
                    )
            },
        funds_add_up(w.run(schedule)->0.books, user, funds),
        w.run(schedule)->0.books.wallets[user].total_coins >= 0,
        w.run(schedule)->0.books.wallets[user].total_coins == w.books.wallets[user].total_coins - (
        spent_in_ledger(w.run(schedule)->0.books.spends, user) - spent_in_ledger(
            w.books.spends,
            user,
        )),
{
    assert(w.steady()) by {
        assert forall|u: int| w.has(u) && w.holder != Some(u) implies is_early(
            #[trigger] w.units[u],
        ) by {
            assert(is_request_of(w.units[u], user));
        }
    }
    let order = lemma_crowd_is_serial(w, schedule);
    lemma_serial_keeps_funds(w, order, user, funds);
    assert forall|k: int| 0 <= k <= order.len() implies funds_add_up(
        #[trigger] w.serial(order.take(k)).books,
        user,
        funds,
    ) by {
        lemma_serial_keeps_funds(w, order.take(k), user, funds);
    }
    assert(w.serial(order).same_end(w.run(schedule)->0));
}

} // verus!
