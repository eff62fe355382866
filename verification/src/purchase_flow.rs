//! How a purchase proceeds against the store, one step at a time.
//!
//! A purchase is one unit of work: it opens a transaction, reads the price
//! of the item, takes the row of the wallet so that no other purchase of
//! the same user can come between, reads what the user holds of the item,
//! decides, writes, and commits. Whatever goes wrong after the transaction
//! was opened, the transaction is rolled back. This module decides what to
//! ask next; the code that talks to the store performs each action and
//! hands back what the store replied.

use vstd::prelude::*;
use crate::error::AppError;
use crate::market_models::UserMarketPurchase;
use crate::market_models::UserWallet;
use crate::purchase::is_failure_of;
use crate::purchase::plan_purchase;
use crate::purchase::plan_spec;
use crate::purchase::MarketError;
use crate::purchase::PurchasePlan;

verus! {

/// Why a purchase did not go through.
#[derive(Debug, Clone, Copy, PartialEq, Eq, Structural)]
pub enum PurchaseFailure {
    /// The purchase was refused; nothing is wrong with the store.
    Refused(MarketError),
    /// The store failed, or held a wallet whose amounts do not add up.
    StoreFailed,
}

/// Where a purchase stands: the action that is under way, with what was
/// read or planned so far.
#[derive(Debug, Clone, Copy, PartialEq, Eq, Structural)]
pub enum PurchaseStep {
    Beginning,
    ReadingPrice,
    LockingWallet { price: i32 },
    ReadingPurchase { price: i32, wallet: UserWallet, now: i64 },
    WritingWallet { plan: PurchasePlan },
    WritingLedger { plan: PurchasePlan },
    WritingPurchase { plan: PurchasePlan },
    Committing { plan: PurchasePlan },
    RollingBack { failure: PurchaseFailure },
}

/// A purchase under way.
#[derive(Debug, Clone, Copy, PartialEq, Eq, Structural)]
pub struct PurchaseFlow {
    pub user_id: u128,
    pub item_id: u128,
    pub quantity: i32,
    /// The id of the purchase row, should one be created.
    pub purchase_id: u128,
    pub step: PurchaseStep,
}

/// What to ask of the store.
#[derive(Debug, Clone, Copy, PartialEq, Eq, Structural)]
pub enum PurchaseAction {
    /// Open a transaction.
    Begin,
    /// Read the price of the item.
    ReadPrice { item_id: u128 },
    /// Read the wallet of the user and hold its row until the transaction
    /// ends; read the time of the store with it.
    LockWallet { user_id: u128 },
    /// Read the row of what the user holds of the item.
    ReadPurchase { user_id: u128, item_id: u128 },
    /// Write the amounts of the wallet.
    WriteWallet { wallet: UserWallet },
    /// Add a `spend` entry of `amount` with the reason `purchase` to the
    /// ledger.
    AppendSpend { user_id: u128, amount: i32 },
    /// Write the purchase row, in place of the one that was read or as a
    /// new row.
    WritePurchase { purchase: UserMarketPurchase },
    Commit,
    Rollback,
}

/// What the store replied to an action.
#[derive(Debug, Clone, Copy, PartialEq, Eq, Structural)]
pub enum PurchaseReply {
    /// The action was carried out and returns nothing.
    Done,
    /// The price of the item, or nothing if there is no such item.
    Price(Option<i32>),
    /// The wallet of the user, or nothing if the user has none, and the
    /// time of the store.
    Wallet(Option<UserWallet>, i64),
    /// The purchase row, or nothing if the user holds none of the item.
    Purchase(Option<UserMarketPurchase>),
    /// The action failed.
    Failed,
}

/// How a purchase ended.
#[derive(Debug, Clone, Copy, PartialEq, Eq, Structural)]
pub enum PurchaseOutcome {
    /// The purchase went through; the row is what the user now holds of
    /// the item.
    Bought(UserMarketPurchase),
    /// The purchase did not go through and nothing was written.
    Failed(PurchaseFailure),
}

/// A purchase after one more reply of the store.
#[derive(Debug, Clone, Copy, PartialEq, Eq, Structural)]
pub enum PurchaseProgress {
    Continue(PurchaseFlow),
    Finished(PurchaseOutcome),
}

impl PurchaseStep {
    /// An upper bound on the actions that remain from this step on, this
    /// step's own included.
    pub open spec fn rank(self) -> nat {
        match self {
            PurchaseStep::Beginning => 9,
            PurchaseStep::ReadingPrice => 8,
            PurchaseStep::LockingWallet { .. } => 7,
            PurchaseStep::ReadingPurchase { .. } => 6,
            PurchaseStep::WritingWallet { .. } => 5,
            PurchaseStep::WritingLedger { .. } => 4,
            PurchaseStep::WritingPurchase { .. } => 3,
            PurchaseStep::Committing { .. } => 2,
            PurchaseStep::RollingBack { .. } => 1,
        }
    }
}

impl PurchaseAction {
    /// The action changes a row.
    pub open spec fn is_write(self) -> bool {
        self is WriteWallet || self is AppendSpend || self is WritePurchase
    }

    /// The action ends the transaction.
    pub open spec fn closes(self) -> bool {
        self is Commit || self is Rollback
    }
}

/// How a purchase begins: refused at once if the quantity is not positive,
/// else by opening a transaction.
pub open spec fn begin_spec(user_id: u128, item_id: u128, quantity: i32, purchase_id: u128) -> PurchaseProgress {
    if quantity <= 0 {
        PurchaseProgress::Finished(
            PurchaseOutcome::Failed(PurchaseFailure::Refused(MarketError::InvalidQuantity)),
        )
    } else {
        PurchaseProgress::Continue(
            PurchaseFlow { user_id, item_id, quantity, purchase_id, step: PurchaseStep::Beginning },
        )
    }
}

impl PurchaseFlow {
    /// This purchase at another step.
    pub open spec fn at(self, step: PurchaseStep) -> PurchaseFlow {
        PurchaseFlow { step, ..self }
    }

    /// This purchase about to roll back for `failure`.
    pub open spec fn failing(self, failure: PurchaseFailure) -> PurchaseProgress {
        PurchaseProgress::Continue(self.at(PurchaseStep::RollingBack { failure }))
    }

    /// The action that is under way.
    pub open spec fn action_spec(self) -> PurchaseAction {
        match self.step {
            PurchaseStep::Beginning => PurchaseAction::Begin,
            PurchaseStep::ReadingPrice => PurchaseAction::ReadPrice { item_id: self.item_id },
            PurchaseStep::LockingWallet { .. } => PurchaseAction::LockWallet {
                user_id: self.user_id,
            },
            PurchaseStep::ReadingPurchase { .. } => PurchaseAction::ReadPurchase {
                user_id: self.user_id,
                item_id: self.item_id,
            },
            PurchaseStep::WritingWallet { plan } => PurchaseAction::WriteWallet {
                wallet: plan.wallet,
            },
            PurchaseStep::WritingLedger { plan } => PurchaseAction::AppendSpend {
                user_id: self.user_id,
                amount: plan.total_cost,
            },
            PurchaseStep::WritingPurchase { plan } => PurchaseAction::WritePurchase {
                purchase: plan.purchase,
            },
            PurchaseStep::Committing { .. } => PurchaseAction::Commit,
            PurchaseStep::RollingBack { .. } => PurchaseAction::Rollback,
        }
    }

    /// The purchase after the store replied to the action under way.
    ///
    /// A transaction that cannot be opened ends the purchase at once. From
    /// then on every reply but the expected one leads to a rollback: an
    /// item or a wallet that is not there, a wallet whose amounts do not
    /// add up, a refusal of the plan, and any failure of the store. Nothing
    /// is written before the plan is made, and the purchase has gone
    /// through only when the commit has.
    pub open spec fn next_spec(self, reply: PurchaseReply) -> PurchaseProgress {
        match self.step {
            PurchaseStep::Beginning => match reply {
                PurchaseReply::Done => PurchaseProgress::Continue(
                    self.at(PurchaseStep::ReadingPrice),
                ),
                _ => PurchaseProgress::Finished(
                    PurchaseOutcome::Failed(PurchaseFailure::StoreFailed),
                ),
            },
            PurchaseStep::ReadingPrice => match reply {
                PurchaseReply::Price(Some(price)) => PurchaseProgress::Continue(
                    self.at(PurchaseStep::LockingWallet { price }),
                ),
                PurchaseReply::Price(None) => self.failing(
                    PurchaseFailure::Refused(MarketError::ItemNotFound),
                ),
                _ => self.failing(PurchaseFailure::StoreFailed),
            },
            PurchaseStep::LockingWallet { price } => match reply {
                PurchaseReply::Wallet(Some(wallet), now) => if wallet.wf() {
                    PurchaseProgress::Continue(
                        self.at(PurchaseStep::ReadingPurchase { price, wallet, now }),
                    )
                } else {
                    self.failing(PurchaseFailure::StoreFailed)
                },
                PurchaseReply::Wallet(None, _) => self.failing(
                    PurchaseFailure::Refused(MarketError::WalletNotFound),
                ),
                _ => self.failing(PurchaseFailure::StoreFailed),
            },
            PurchaseStep::ReadingPurchase { price, wallet, now } => match reply {
                PurchaseReply::Purchase(existing) => if wallet.wf() {
                    match plan_spec(
                        self.user_id,
                        self.item_id,
                        self.quantity,
                        Some(price),
                        Some(wallet),
                        existing,
                        self.purchase_id,
                        now,
                    ) {
                        Ok(plan) => PurchaseProgress::Continue(
                            self.at(PurchaseStep::WritingWallet { plan }),
                        ),
                        Err(e) => self.failing(PurchaseFailure::Refused(e)),
                    }
                } else {
                    self.failing(PurchaseFailure::StoreFailed)
                },
                _ => self.failing(PurchaseFailure::StoreFailed),
            },
            PurchaseStep::WritingWallet { plan } => match reply {
                PurchaseReply::Done => PurchaseProgress::Continue(
                    self.at(PurchaseStep::WritingLedger { plan }),
                ),
                _ => self.failing(PurchaseFailure::StoreFailed),
            },
            PurchaseStep::WritingLedger { plan } => match reply {
                PurchaseReply::Done => PurchaseProgress::Continue(
                    self.at(PurchaseStep::WritingPurchase { plan }),
                ),
                _ => self.failing(PurchaseFailure::StoreFailed),
            },
            PurchaseStep::WritingPurchase { plan } => match reply {
                PurchaseReply::Done => PurchaseProgress::Continue(
                    self.at(PurchaseStep::Committing { plan }),
                ),
                _ => self.failing(PurchaseFailure::StoreFailed),
            },
            PurchaseStep::Committing { plan } => match reply {
                PurchaseReply::Done => PurchaseProgress::Finished(
                    PurchaseOutcome::Bought(plan.purchase),
                ),
                _ => PurchaseProgress::Finished(
                    PurchaseOutcome::Failed(PurchaseFailure::StoreFailed),
                ),
            },
            PurchaseStep::RollingBack { failure } => PurchaseProgress::Finished(
                PurchaseOutcome::Failed(failure),
            ),
        }
    }

    /// Begins a purchase. A quantity that is not positive is refused
    /// before anything is asked of the store.
    pub fn begin(user_id: u128, item_id: u128, quantity: i32, purchase_id: u128) -> (r:
        PurchaseProgress)
        ensures
            r == begin_spec(user_id, item_id, quantity, purchase_id),
    {
        if quantity <= 0 {
            PurchaseProgress::Finished(
            PurchaseOutcome::Failed(PurchaseFailure::Refused(MarketError::InvalidQuantity)),
        )
        } else {
            PurchaseProgress::Continue(
                PurchaseFlow {
                    user_id,
                    item_id,
                    quantity,
                    purchase_id,
                    step: PurchaseStep::Beginning,
                },
            )
        }
    }

    /// The action to perform now.
    pub fn action(&self) -> (r: PurchaseAction)
        ensures
            r == self.action_spec(),
    {
        match self.step {
            PurchaseStep::Beginning => PurchaseAction::Begin,
            PurchaseStep::ReadingPrice => PurchaseAction::ReadPrice { item_id: self.item_id },
            PurchaseStep::LockingWallet { .. } => PurchaseAction::LockWallet {
                user_id: self.user_id,
            },
            PurchaseStep::ReadingPurchase { .. } => PurchaseAction::ReadPurchase {
                user_id: self.user_id,
                item_id: self.item_id,
            },
            PurchaseStep::WritingWallet { plan } => PurchaseAction::WriteWallet {
                wallet: plan.wallet,
            },
            PurchaseStep::WritingLedger { plan } => PurchaseAction::AppendSpend {
                user_id: self.user_id,
                amount: plan.total_cost,
            },
            PurchaseStep::WritingPurchase { plan } => PurchaseAction::WritePurchase {
                purchase: plan.purchase,
            },
            PurchaseStep::Committing { .. } => PurchaseAction::Commit,
            PurchaseStep::RollingBack { .. } => PurchaseAction::Rollback,
        }
    }

    fn with_step(&self, step: PurchaseStep) -> (r: PurchaseProgress)
        ensures
            r == PurchaseProgress::Continue(self.at(step)),
    {
        PurchaseProgress::Continue(
            PurchaseFlow {
                user_id: self.user_id,
                item_id: self.item_id,
                quantity: self.quantity,
                purchase_id: self.purchase_id,
                step,
            },
        )
    }

    fn fail(&self, failure: PurchaseFailure) -> (r: PurchaseProgress)
        ensures
            r == self.failing(failure),
    {
        self.with_step(PurchaseStep::RollingBack { failure })
    }

    /// Takes the store's reply to the action under way and says how the
    /// purchase goes on.
    pub fn next(self, reply: PurchaseReply) -> (r: PurchaseProgress)
        ensures
            r == self.next_spec(reply),
    {
        match self.step {
            PurchaseStep::Beginning => match reply {
                PurchaseReply::Done => self.with_step(PurchaseStep::ReadingPrice),
                _ => PurchaseProgress::Finished(
                    PurchaseOutcome::Failed(PurchaseFailure::StoreFailed),
                ),
            },
            PurchaseStep::ReadingPrice => match reply {
                PurchaseReply::Price(Some(price)) => self.with_step(
                    PurchaseStep::LockingWallet { price },
                ),
                PurchaseReply::Price(None) => self.fail(
                    PurchaseFailure::Refused(MarketError::ItemNotFound),
                ),
                _ => self.fail(PurchaseFailure::StoreFailed),
            },
            PurchaseStep::LockingWallet { price } => match reply {
                PurchaseReply::Wallet(Some(wallet), now) => if wallet.is_valid() {
                    self.with_step(PurchaseStep::ReadingPurchase { price, wallet, now })
                } else {
                    self.fail(PurchaseFailure::StoreFailed)
                },
                PurchaseReply::Wallet(None, _) => self.fail(
                    PurchaseFailure::Refused(MarketError::WalletNotFound),
                ),
                _ => self.fail(PurchaseFailure::StoreFailed),
            },
            PurchaseStep::ReadingPurchase { price, wallet, now } => match reply {
                PurchaseReply::Purchase(existing) => if wallet.is_valid() {
                    match plan_purchase(
                        self.user_id,
                        self.item_id,
                        self.quantity,
                        Some(price),
                        Some(wallet),
                        existing,
                        self.purchase_id,
                        now,
                    ) {
                        Ok(plan) => self.with_step(PurchaseStep::WritingWallet { plan }),
                        Err(e) => self.fail(PurchaseFailure::Refused(e)),
                    }
                } else {
                    self.fail(PurchaseFailure::StoreFailed)
                },
                _ => self.fail(PurchaseFailure::StoreFailed),
            },
            PurchaseStep::WritingWallet { plan } => match reply {
                PurchaseReply::Done => self.with_step(PurchaseStep::WritingLedger { plan }),
                _ => self.fail(PurchaseFailure::StoreFailed),
            },
            PurchaseStep::WritingLedger { plan } => match reply {
                PurchaseReply::Done => self.with_step(PurchaseStep::WritingPurchase { plan }),
                _ => self.fail(PurchaseFailure::StoreFailed),
            },
            PurchaseStep::WritingPurchase { plan } => match reply {
                PurchaseReply::Done => self.with_step(PurchaseStep::Committing { plan }),
                _ => self.fail(PurchaseFailure::StoreFailed),
            },
            PurchaseStep::Committing { plan } => match reply {
                PurchaseReply::Done => PurchaseProgress::Finished(
                    PurchaseOutcome::Bought(plan.purchase),
                ),
                _ => PurchaseProgress::Finished(
                    PurchaseOutcome::Failed(PurchaseFailure::StoreFailed),
                ),
            },
            PurchaseStep::RollingBack { failure } => PurchaseProgress::Finished(
                PurchaseOutcome::Failed(failure),
            ),
        }
    }
}

impl PurchaseOutcome {
    /// The answer to the caller: the purchase row, or the failure. A
    /// refusal says what the caller can mend; a failure of the store is an
    /// internal failure that names only the operation.
    pub fn into_result(self) -> (r: Result<UserMarketPurchase, AppError>)
        ensures
            self matches PurchaseOutcome::Bought(row) ==> r == Ok::<_, AppError>(row),
            self matches PurchaseOutcome::Failed(PurchaseFailure::Refused(e)) ==> (
            r matches Err(a) && is_failure_of(a, e)),
            self matches PurchaseOutcome::Failed(PurchaseFailure::StoreFailed) ==> (
            r matches Err(AppError::Internal(m)) && m@ == "Failed to purchase item"@),
    {
        match self {
            PurchaseOutcome::Bought(row) => Ok(row),
            PurchaseOutcome::Failed(PurchaseFailure::Refused(e)) => Err(e.into_app_error()),
            PurchaseOutcome::Failed(PurchaseFailure::StoreFailed) => Err(
                AppError::internal("Failed to purchase item"),
            ),
        }
    }
}

/// The actions that a purchase performs from `flow` on when the store
/// gives the replies `replies` in turn, and how the purchase ended if the
/// replies reach that far.
pub open spec fn trace(flow: PurchaseFlow, replies: Seq<PurchaseReply>) -> (
    Seq<PurchaseAction>,
    Option<PurchaseOutcome>,
)
    decreases replies.len(),
{
    if replies.len() == 0 {
        (seq![flow.action_spec()], None)
    } else {
        match flow.next_spec(replies[0]) {
            PurchaseProgress::Continue(f) => {
                let rest = trace(f, replies.drop_first());
                (seq![flow.action_spec()] + rest.0, rest.1)
            },
            PurchaseProgress::Finished(o) => (seq![flow.action_spec()], Some(o)),
        }
    }
}

/// Every step that follows is nearer to the end, and belongs to the same
/// purchase.
pub proof fn lemma_purchase_descends(flow: PurchaseFlow, reply: PurchaseReply)
    ensures
        flow.next_spec(reply) matches PurchaseProgress::Continue(f) ==> {
            &&& f.step.rank() < flow.step.rank()
            &&& f.user_id == flow.user_id
            &&& f.item_id == flow.item_id
            &&& f.quantity == flow.quantity
            &&& f.purchase_id == flow.purchase_id
        },
{
}

/// A purchase has gone through only when the store has confirmed the
/// commit, and a failure inside the transaction is never the end of the
/// purchase: the rollback comes first.
pub proof fn lemma_purchase_is_all_or_nothing(flow: PurchaseFlow, reply: PurchaseReply)
    ensures
        flow.next_spec(reply) matches PurchaseProgress::Finished(PurchaseOutcome::Bought(row)) ==> (
        flow.step matches PurchaseStep::Committing { plan } && reply is Done && row
            == plan.purchase),
        flow.next_spec(reply) matches PurchaseProgress::Finished(PurchaseOutcome::Failed(_))
            ==> flow.step is Beginning
            || flow.action_spec().closes(),
        flow.next_spec(reply) matches PurchaseProgress::Continue(f) ==> (f.action_spec().is_write()
            ==> reply is Done || flow.step is ReadingPurchase),
{
}

/// Whatever the store replies, a purchase asks at most nine things of
/// it; and a purchase that has ended after its transaction was opened has
/// ended it as its last action, by a commit or by a rollback.
pub proof fn lemma_transaction_is_closed(flow: PurchaseFlow, replies: Seq<PurchaseReply>)
    ensures
        1 <= trace(flow, replies).0.len() <= flow.step.rank(),
        trace(flow, replies).0.first() == flow.action_spec(),
        trace(flow, replies).1 is Some ==> trace(flow, replies).0.last().closes() || (
        flow.step is Beginning && trace(flow, replies).0.len() == 1),
    decreases replies.len(),
{
    if replies.len() > 0 {
        lemma_purchase_descends(flow, replies[0]);
        lemma_purchase_is_all_or_nothing(flow, replies[0]);
        match flow.next_spec(replies[0]) {
            PurchaseProgress::Continue(f) => {
                lemma_transaction_is_closed(f, replies.drop_first());
                let rest = trace(f, replies.drop_first());
                assert((seq![flow.action_spec()] + rest.0).last() == rest.0.last());
            },
            PurchaseProgress::Finished(_) => {},
        }
    }
}

/// A purchase that has gone through has read the price, the wallet and the
/// purchase row, has written what the plan for those values says, in the
/// order wallet, ledger, purchase row, and has committed; and the plan is
/// the one that the values that were read allow.
pub proof fn lemma_success_writes_the_plan(flow: PurchaseFlow, replies: Seq<PurchaseReply>)
    requires
        flow.step is Beginning,
        trace(flow, replies).1 matches Some(PurchaseOutcome::Bought(_)),
    ensures
        replies.len() >= 8,
        replies[1] matches PurchaseReply::Price(Some(price)) && replies[2] matches PurchaseReply::Wallet(
            Some(wallet),
            now,
        ) && replies[3] matches PurchaseReply::Purchase(existing) && plan_spec(
            flow.user_id,
            flow.item_id,
            flow.quantity,
            Some(price),
            Some(wallet),
            existing,
            flow.purchase_id,
            now,
        ) matches Ok(plan) && trace(flow, replies).1 == Some(PurchaseOutcome::Bought(plan.purchase))
            && trace(flow, replies).0 == seq![
            PurchaseAction::Begin,
            PurchaseAction::ReadPrice { item_id: flow.item_id },
            PurchaseAction::LockWallet { user_id: flow.user_id },
            PurchaseAction::ReadPurchase { user_id: flow.user_id, item_id: flow.item_id },
            PurchaseAction::WriteWallet { wallet: plan.wallet },
            PurchaseAction::AppendSpend { user_id: flow.user_id, amount: plan.total_cost },
            PurchaseAction::WritePurchase { purchase: plan.purchase },
            PurchaseAction::Commit,
        ],
{
    reveal_with_fuel(trace, 10);
    let r1 = replies.drop_first();
    let r2 = r1.drop_first();
    let r3 = r2.drop_first();
    let r4 = r3.drop_first();
    let r5 = r4.drop_first();
    let r6 = r5.drop_first();
    let r7 = r6.drop_first();
    assert(replies.len() >= 8);
    let price = replies[1]->Price_0->0;
    let wallet = replies[2]->Wallet_0->0;
    let now = replies[2]->Wallet_1;
    let existing = replies[3]->Purchase_0;
    let plan = plan_spec(
        flow.user_id,
        flow.item_id,
        flow.quantity,
        Some(price),
        Some(wallet),
        existing,
        flow.purchase_id,
        now,
    )->Ok_0;
    assert(trace(flow, replies).0 =~= seq![
        PurchaseAction::Begin,
        PurchaseAction::ReadPrice { item_id: flow.item_id },
        PurchaseAction::LockWallet { user_id: flow.user_id },
        PurchaseAction::ReadPurchase { user_id: flow.user_id, item_id: flow.item_id },
        PurchaseAction::WriteWallet { wallet: plan.wallet },
        PurchaseAction::AppendSpend { user_id: flow.user_id, amount: plan.total_cost },
        PurchaseAction::WritePurchase { purchase: plan.purchase },
        PurchaseAction::Commit,
    ]);
}

} // verus!
