//! The transaction engine: the authorize -> capture -> settle state
//! machine over the account, card and merchant stores.
//!
//! Every mutating operation is validate-then-commit: it either performs
//! its whole effect or returns an error and leaves the engine exactly
//! as it was. The deterministic core of each operation takes the fresh
//! transaction identity and the clock reading as arguments, so its
//! outcome is pinned down exactly; the convenience form draws both from
//! the random-id source and the wall clock.

use vstd::prelude::*;
use crate::account::{Account, AccountStatus};
use crate::card::{CardStatus, PaymentCard};
use crate::clock::{clock_now, ClockReading};
use crate::currency::Currency;
use crate::errors::{Entity, PayError, StateLabel};
use crate::merchant::{Merchant, MerchantStatus};
use crate::security::SecurityManager;
use crate::store::{find_idx, fresh_key, set_at, spec_get, spec_idx_of, spec_upsert, upsert, Keyed};

verus! {

/// Lifecycle status of a transaction. It only ever moves forward:
/// `Pending -> Authorized -> Captured -> Settled`, with `Declined` and
/// `Reversed` as terminal exits.
#[derive(Clone, Copy, Debug, PartialEq, Eq, Structural)]
pub enum TransactionStatus {
    Pending,
    Authorized,
    Captured,
    Settled,
    Declined,
    Reversed,
}

/// What a transaction does with funds.
#[derive(Clone, Copy, Debug, PartialEq, Eq, Structural)]
pub enum TransactionType {
    Purchase,
    Refund,
    Chargeback,
}

/// A transaction, owned by the engine for its entire lifetime. Amounts
/// are whole, positive units of `currency`.
#[derive(Clone, Copy, Debug, PartialEq)]
pub struct Transaction {
    /// Identity of the transaction.
    pub id: u128,
    /// Identity of the card it was made with.
    pub card_id: u128,
    /// Identity of the merchant it was made at.
    pub merchant_id: u128,
    /// Amount, in whole units of `currency`.
    pub amount: u64,
    /// Currency of the amount.
    pub currency: Currency,
    /// Position in the state machine.
    pub status: TransactionStatus,
    /// What the transaction does with funds.
    pub transaction_type: TransactionType,
    /// Seconds since the Unix epoch at which it was created.
    pub created_at: u64,
    /// Seconds since the Unix epoch at which it was last processed.
    pub processed_at: Option<u64>,
}

impl Keyed for Transaction {
    open spec fn spec_key(&self) -> u128 {
        self.id
    }

    fn key(&self) -> (k: u128)
        ensures
            k == self.spec_key(),
    {
        self.id
    }
}

impl Transaction {
    /// Builds a fresh `Pending` transaction; the identity comes from
    /// the random-id source and the creation time from the clock.
    pub fn new(
        card_id: u128,
        merchant_id: u128,
        amount: u64,
        currency: Currency,
        transaction_type: TransactionType,
    ) -> (r: Transaction)
        ensures
            r.card_id == card_id,
            r.merchant_id == merchant_id,
            r.amount == amount,
            r.currency == currency,
            r.status is Pending,
            r.transaction_type == transaction_type,
            r.processed_at is None,
    {
        Transaction {
            id: crate::ids::fresh_u128(),
            card_id,
            merchant_id,
            amount,
            currency,
            status: TransactionStatus::Pending,
            transaction_type,
            created_at: clock_now().secs,
            processed_at: None,
        }
    }
}

/// The status name used when reporting an invalid state transition.
pub open spec fn spec_status_label(s: TransactionStatus) -> StateLabel {
    match s {
        TransactionStatus::Pending => StateLabel::Pending,
        TransactionStatus::Authorized => StateLabel::Authorized,
        TransactionStatus::Captured => StateLabel::Captured,
        TransactionStatus::Settled => StateLabel::Settled,
        TransactionStatus::Declined => StateLabel::Declined,
        TransactionStatus::Reversed => StateLabel::Reversed,
    }
}

/// How far along the one-way state machine a status is. Terminal exits
/// share the highest rank.
pub open spec fn spec_status_rank(s: TransactionStatus) -> int {
    match s {
        TransactionStatus::Pending => 0,
        TransactionStatus::Authorized => 1,
        TransactionStatus::Captured => 2,
        TransactionStatus::Settled => 3,
        TransactionStatus::Declined => 4,
        TransactionStatus::Reversed => 4,
    }
}

fn status_label(s: TransactionStatus) -> (l: StateLabel)
    ensures
        l == spec_status_label(s),
{
    match s {
        TransactionStatus::Pending => StateLabel::Pending,
        TransactionStatus::Authorized => StateLabel::Authorized,
        TransactionStatus::Captured => StateLabel::Captured,
        TransactionStatus::Settled => StateLabel::Settled,
        TransactionStatus::Declined => StateLabel::Declined,
        TransactionStatus::Reversed => StateLabel::Reversed,
    }
}

/// Everything the engine's decisions depend on: the four stores and the
/// fraud threshold.
pub struct EngineView {
    pub accounts: Seq<Account>,
    pub cards: Seq<PaymentCard>,
    pub merchants: Seq<Merchant>,
    pub transactions: Seq<Transaction>,
    pub fraud_threshold: u64,
}

/// The outcome authorization owes for a given engine state, amount and
/// calendar month: the checks run in this order, and the first failure
/// wins. Authorization holds no funds, so a later capture can still
/// fail on the balance.
pub open spec fn spec_authorize_decision(
    v: EngineView,
    card_id: u128,
    merchant_id: u128,
    amount: u64,
    year: u16,
    month: u8,
) -> Result<(), PayError> {
    if amount == 0 {
        Err(PayError::InvalidAmount)
    } else {
        match spec_get(v.cards, card_id) {
            None => Err(PayError::NotFound(Entity::Card)),
            Some(card) => if !(card.status is Active) {
                Err(PayError::CardInactive)
            } else if card.spec_expired_at(year, month) {
                Err(PayError::CardExpired)
            } else {
                match spec_get(v.merchants, merchant_id) {
                    None => Err(PayError::NotFound(Entity::Merchant)),
                    Some(merchant) => if !(merchant.status is Active) {
                        Err(PayError::MerchantInactive)
                    } else {
                        match spec_get(v.accounts, card.account_id) {
                            None => Err(PayError::NotFound(Entity::Account)),
                            Some(account) => if !(account.status is Active) {
                                Err(PayError::AccountInactive)
                            } else if account.balance < amount {
                                Err(PayError::InsufficientFunds)
                            } else if amount > v.fraud_threshold {
                                Err(PayError::FraudFlagged)
                            } else {
                                Ok(())
                            },
                        }
                    },
                }
            },
        }
    }
}

/// The transaction a successful authorization records.
pub open spec fn spec_authorized_tx(
    tx_id: u128,
    card_id: u128,
    merchant_id: u128,
    amount: u64,
    currency: Currency,
    now_secs: u64,
) -> Transaction {
    Transaction {
        id: tx_id,
        card_id,
        merchant_id,
        amount,
        currency,
        status: TransactionStatus::Authorized,
        transaction_type: TransactionType::Purchase,
        created_at: now_secs,
        processed_at: Some(now_secs),
    }
}

/// The engine state after a successful authorization: the new
/// transaction is appended and nothing else moves. In particular no
/// funds are held.
pub open spec fn spec_authorize_apply(v: EngineView, tx: Transaction) -> EngineView {
    EngineView { transactions: v.transactions.push(tx), ..v }
}

/// The outcome capture owes: the transaction must exist and be
/// `Authorized`, its card and owning account must still exist, and the
/// account balance must still cover the amount, which authorization did
/// not reserve.
pub open spec fn spec_capture_decision(v: EngineView, tx_id: u128) -> Result<(), PayError> {
    match spec_get(v.transactions, tx_id) {
        None => Err(PayError::NotFound(Entity::Transaction)),
        Some(t) => if !(t.status is Authorized) {
            Err(
                PayError::InvalidState {
                    expected: StateLabel::Authorized,
                    actual: spec_status_label(t.status),
                },
            )
        } else {
            match spec_get(v.cards, t.card_id) {
                None => Err(PayError::NotFound(Entity::Card)),
                Some(card) => match spec_get(v.accounts, card.account_id) {
                    None => Err(PayError::NotFound(Entity::Account)),
                    Some(account) => if account.balance < t.amount {
                        Err(PayError::InsufficientFunds)
                    } else {
                        Ok(())
                    },
                },
            }
        },
    }
}

/// The engine state after a successful capture: the owning account is
/// debited by the transaction amount and the transaction becomes
/// `Captured`, stamped with the processing time.
pub open spec fn spec_capture_apply(v: EngineView, tx_id: u128, now_secs: u64) -> EngineView {
    let ti = spec_idx_of(v.transactions, tx_id).unwrap();
    let t = v.transactions[ti];
    let card = spec_get(v.cards, t.card_id).unwrap();
    let ai = spec_idx_of(v.accounts, card.account_id).unwrap();
    let a = v.accounts[ai];
    EngineView {
        transactions: v.transactions.update(
            ti,
            Transaction {
                status: TransactionStatus::Captured,
                processed_at: Some(now_secs),
                ..t
            },
        ),
        accounts: v.accounts.update(
            ai,
            Account { balance: (a.balance - t.amount) as u64, ..a },
        ),
        ..v
    }
}

/// The outcome settle owes: the transaction must exist and be
/// `Captured`. No funds move at this layer; the settlement engine owns
/// the merchant payout.
pub open spec fn spec_settle_decision(v: EngineView, tx_id: u128) -> Result<(), PayError> {
    match spec_get(v.transactions, tx_id) {
        None => Err(PayError::NotFound(Entity::Transaction)),
        Some(t) => if !(t.status is Captured) {
            Err(
                PayError::InvalidState {
                    expected: StateLabel::Captured,
                    actual: spec_status_label(t.status),
                },
            )
        } else {
            Ok(())
        },
    }
}

/// The engine state after a successful settle: only the transaction's
/// status and processing time change.
pub open spec fn spec_settle_apply(v: EngineView, tx_id: u128, now_secs: u64) -> EngineView {
    let ti = spec_idx_of(v.transactions, tx_id).unwrap();
    let t = v.transactions[ti];
    EngineView {
        transactions: v.transactions.update(
            ti,
            Transaction { status: TransactionStatus::Settled, processed_at: Some(now_secs), ..t },
        ),
        ..v
    }
}

/// The engine: owns every store and drives the state machine.
pub struct PaymentProcessor {
    accounts: Vec<Account>,
    cards: Vec<PaymentCard>,
    merchants: Vec<Merchant>,
    transactions: Vec<Transaction>,
    security: SecurityManager,
}

impl View for PaymentProcessor {
    type V = EngineView;

    closed spec fn view(&self) -> EngineView {
        EngineView {
            accounts: self.accounts@,
            cards: self.cards@,
            merchants: self.merchants@,
            transactions: self.transactions@,
            fraud_threshold: self.security.spec_fraud_threshold(),
        }
    }
}

impl PaymentProcessor {
    /// An engine with empty stores and the default fraud threshold.
    pub fn new() -> (r: PaymentProcessor)
        ensures
            r@.accounts == Seq::<Account>::empty(),
            r@.cards == Seq::<PaymentCard>::empty(),
            r@.merchants == Seq::<Merchant>::empty(),
            r@.transactions == Seq::<Transaction>::empty(),
            r@.fraud_threshold == 1000,
    {
        PaymentProcessor {
            accounts: Vec::new(),
            cards: Vec::new(),
            merchants: Vec::new(),
            transactions: Vec::new(),
            security: SecurityManager::new(),
        }
    }

    /// Adds an account, replacing any record with the same identity.
    pub fn add_account(&mut self, account: Account)
        ensures
            final(self)@ == (EngineView {
                accounts: spec_upsert(old(self)@.accounts, account),
                ..old(self)@
            }),
    {
        upsert(&mut self.accounts, account);
    }

    /// Adds a card, replacing any record with the same identity.
    pub fn add_card(&mut self, card: PaymentCard)
        ensures
            final(self)@ == (EngineView { cards: spec_upsert(old(self)@.cards, card), ..old(self)@ }),
    {
        upsert(&mut self.cards, card);
    }

    /// Adds a merchant, replacing any record with the same identity.
    pub fn add_merchant(&mut self, merchant: Merchant)
        ensures
            final(self)@ == (EngineView {
                merchants: spec_upsert(old(self)@.merchants, merchant),
                ..old(self)@
            }),
    {
        upsert(&mut self.merchants, merchant);
    }

    /// A read-only snapshot of a transaction.
    pub fn get_transaction(&self, tx_id: u128) -> (r: Option<Transaction>)
        ensures
            r == spec_get(self@.transactions, tx_id),
    {
        match find_idx(&self.transactions, tx_id) {
            Some(i) => Some(self.transactions[i]),
            None => None,
        }
    }

    /// The balance of an account, if it exists.
    pub fn account_balance(&self, account_id: u128) -> (r: Option<u64>)
        ensures
            r == (match spec_get(self@.accounts, account_id) {
                Some(a) => Some(a.balance),
                None => None,
            }),
    {
        match find_idx(&self.accounts, account_id) {
            Some(i) => Some(self.accounts[i].balance),
            None => None,
        }
    }

    /// Credits an account, as the ledger's `credit` does, failing with
    /// `NotFound` for an unknown account and `InvalidAmount` for a zero
    /// amount.
    pub fn credit_account(&mut self, account_id: u128, amount: u64) -> (r: Result<(), PayError>)
        requires
            (match spec_get(old(self)@.accounts, account_id) {
                Some(a) => a.balance + amount <= u64::MAX,
                None => true,
            }),
        ensures
            (match spec_get(old(self)@.accounts, account_id) {
                Some(a) => if amount == 0 {
                    r == Err::<(), PayError>(PayError::InvalidAmount) && final(self)@ == old(self)@
                } else {
                    let i = spec_idx_of(old(self)@.accounts, account_id).unwrap();
                    r == Ok::<(), PayError>(()) && final(self)@ == (EngineView {
                        accounts: old(self)@.accounts.update(
                            i,
                            Account { balance: (a.balance + amount) as u64, ..a },
                        ),
                        ..old(self)@
                    })
                },
                None => r == Err::<(), PayError>(PayError::NotFound(Entity::Account))
                    && final(self)@ == old(self)@,
            }),
    {
        if amount == 0 {
            if find_idx(&self.accounts, account_id).is_none() {
                return Err(PayError::NotFound(Entity::Account));
            }
            return Err(PayError::InvalidAmount);
        }
        let ai = match find_idx(&self.accounts, account_id) {
            Some(i) => i,
            None => { return Err(PayError::NotFound(Entity::Account)) },
        };
        proof {
            crate::store::lemma_idx_of(self@.accounts, account_id);
        }
        let a = &self.accounts[ai];
        let updated = Account {
            id: a.id,
            holder_name: a.holder_name.clone(),
            balance: a.balance + amount,
            currency: a.currency,
            created_at: a.created_at,
            status: a.status,
        };
        set_at(&mut self.accounts, ai, updated);
        Ok(())
    }

    /// The deterministic core of authorization: the identity of the
    /// transaction to record and the clock reading are arguments.
    /// Returns exactly what `spec_authorize_decision` owes, recording
    /// the new `Authorized` transaction on success and changing nothing
    /// on failure.
    pub fn authorize_transaction_at(
        &mut self,
        card_id: u128,
        merchant_id: u128,
        amount: u64,
        currency: Currency,
        tx_id: u128,
        now: &ClockReading,
    ) -> (r: Result<u128, PayError>)
        requires
            spec_idx_of(old(self)@.transactions, tx_id) is None,
        ensures
            (match spec_authorize_decision(old(self)@, card_id, merchant_id, amount, now.year, now.month) {
                Ok(()) => r == Ok::<u128, PayError>(tx_id) && final(self)@ == spec_authorize_apply(
                    old(self)@,
                    spec_authorized_tx(tx_id, card_id, merchant_id, amount, currency, now.secs),
                ),
                Err(e) => r == Err::<u128, PayError>(e) && final(self)@ == old(self)@,
            }),
    {
        if amount == 0 {
            return Err(PayError::InvalidAmount);
        }
        let ci = match find_idx(&self.cards, card_id) {
            Some(i) => i,
            None => { return Err(PayError::NotFound(Entity::Card)) },
        };
        if !matches!(self.cards[ci].status, CardStatus::Active) {
            return Err(PayError::CardInactive);
        }
        if self.cards[ci].is_expired_at(now) {
            return Err(PayError::CardExpired);
        }
        let mi = match find_idx(&self.merchants, merchant_id) {
            Some(i) => i,
            None => { return Err(PayError::NotFound(Entity::Merchant)) },
        };
        if !matches!(self.merchants[mi].status, MerchantStatus::Active) {
            return Err(PayError::MerchantInactive);
        }
        let ai = match find_idx(&self.accounts, self.cards[ci].account_id) {
            Some(i) => i,
            None => { return Err(PayError::NotFound(Entity::Account)) },
        };
        if !matches!(self.accounts[ai].status, AccountStatus::Active) {
            return Err(PayError::AccountInactive);
        }
        if self.accounts[ai].balance < amount {
            return Err(PayError::InsufficientFunds);
        }
        if self.security.check_fraud(amount, self.cards[ci].pan.as_str()) {
            return Err(PayError::FraudFlagged);
        }
        let tx = Transaction {
            id: tx_id,
            card_id,
            merchant_id,
            amount,
            currency,
            status: TransactionStatus::Authorized,
            transaction_type: TransactionType::Purchase,
            created_at: now.secs,
            processed_at: Some(now.secs),
        };
        self.transactions.push(tx);
        Ok(tx_id)
    }

    /// Authorizes a transaction against the wall clock, under a fresh
    /// random identity. The outcome is the one `spec_authorize_decision`
    /// owes for the clock reading taken during the call.
    pub fn authorize_transaction(
        &mut self,
        card_id: u128,
        merchant_id: u128,
        amount: u64,
        currency: Currency,
    ) -> (r: Result<u128, PayError>)
        ensures
            (match r {
                Ok(id) => spec_idx_of(old(self)@.transactions, id) is None && (exists|
                    c: ClockReading,
                |
                    c.wf() && spec_authorize_decision(
                        old(self)@,
                        card_id,
                        merchant_id,
                        amount,
                        c.year,
                        c.month,
                    ) is Ok && final(self)@ == spec_authorize_apply(
                        old(self)@,
                        spec_authorized_tx(id, card_id, merchant_id, amount, currency, c.secs),
                    )),
                Err(e) => final(self)@ == old(self)@ && (exists|c: ClockReading|
                    c.wf() && spec_authorize_decision(
                        old(self)@,
                        card_id,
                        merchant_id,
                        amount,
                        c.year,
                        c.month,
                    ) == Err::<(), PayError>(e)),
            }),
    {
        let tx_id = fresh_key(&self.transactions);
        let now = clock_now();
        let r = self.authorize_transaction_at(card_id, merchant_id, amount, currency, tx_id, &now);
        proof {
            assert(now.wf());
        }
        r
    }

    /// The deterministic core of capture. Returns exactly what
    /// `spec_capture_decision` owes; on success debits the owning
    /// account and marks the transaction `Captured`, and on failure
    /// changes nothing. The balance is checked now, not at
    /// authorization time, so `InsufficientFunds` here is a real
    /// outcome even after a successful authorization.
    pub fn capture_transaction_at(&mut self, tx_id: u128, now: &ClockReading) -> (r: Result<
        (),
        PayError,
    >)
        ensures
            (match spec_capture_decision(old(self)@, tx_id) {
                Ok(()) => r == Ok::<(), PayError>(()) && final(self)@ == spec_capture_apply(
                    old(self)@,
                    tx_id,
                    now.secs,
                ),
                Err(e) => r == Err::<(), PayError>(e) && final(self)@ == old(self)@,
            }),
    {
        let ti = match find_idx(&self.transactions, tx_id) {
            Some(i) => i,
            None => { return Err(PayError::NotFound(Entity::Transaction)) },
        };
        proof {
            crate::store::lemma_idx_of(self@.transactions, tx_id);
        }
        let status = self.transactions[ti].status;
        if !matches!(status, TransactionStatus::Authorized) {
            return Err(
                PayError::InvalidState {
                    expected: StateLabel::Authorized,
                    actual: status_label(status),
                },
            );
        }
        let t_card_id = self.transactions[ti].card_id;
        let t_amount = self.transactions[ti].amount;
        let ci = match find_idx(&self.cards, t_card_id) {
            Some(i) => i,
            None => { return Err(PayError::NotFound(Entity::Card)) },
        };
        let account_id = self.cards[ci].account_id;
        let ai = match find_idx(&self.accounts, account_id) {
            Some(i) => i,
            None => { return Err(PayError::NotFound(Entity::Account)) },
        };
        proof {
            crate::store::lemma_idx_of(self@.accounts, account_id);
        }
        if self.accounts[ai].balance < t_amount {
            return Err(PayError::InsufficientFunds);
        }
        let a = &self.accounts[ai];
        let debited = Account {
            id: a.id,
            holder_name: a.holder_name.clone(),
            balance: a.balance - t_amount,
            currency: a.currency,
            created_at: a.created_at,
            status: a.status,
        };
        set_at(&mut self.accounts, ai, debited);
        let mut t = self.transactions[ti];
        t.status = TransactionStatus::Captured;
        t.processed_at = Some(now.secs);
        set_at(&mut self.transactions, ti, t);
        Ok(())
    }

    /// Captures a transaction against the wall clock. The outcome is
    /// the one `spec_capture_decision` owes; only the stamped
    /// processing time depends on the clock.
    pub fn capture_transaction(&mut self, tx_id: u128) -> (r: Result<(), PayError>)
        ensures
            (match spec_capture_decision(old(self)@, tx_id) {
                Ok(()) => r == Ok::<(), PayError>(()) && (exists|now_secs: u64|
                    final(self)@ == spec_capture_apply(old(self)@, tx_id, now_secs)),
                Err(e) => r == Err::<(), PayError>(e) && final(self)@ == old(self)@,
            }),
    {
        let now = clock_now();
        self.capture_transaction_at(tx_id, &now)
    }

    /// The deterministic core of settle. Returns exactly what
    /// `spec_settle_decision` owes; on success marks the transaction
    /// `Settled`; no funds move at this layer.
    pub fn settle_transaction_at(&mut self, tx_id: u128, now: &ClockReading) -> (r: Result<
        (),
        PayError,
    >)
        ensures
            (match spec_settle_decision(old(self)@, tx_id) {
                Ok(()) => r == Ok::<(), PayError>(()) && final(self)@ == spec_settle_apply(
                    old(self)@,
                    tx_id,
                    now.secs,
                ),
                Err(e) => r == Err::<(), PayError>(e) && final(self)@ == old(self)@,
            }),
    {
        let ti = match find_idx(&self.transactions, tx_id) {
            Some(i) => i,
            None => { return Err(PayError::NotFound(Entity::Transaction)) },
        };
        proof {
            crate::store::lemma_idx_of(self@.transactions, tx_id);
        }
        let status = self.transactions[ti].status;
        if !matches!(status, TransactionStatus::Captured) {
            return Err(
                PayError::InvalidState {
                    expected: StateLabel::Captured,
                    actual: status_label(status),
                },
            );
        }
        let mut t = self.transactions[ti];
        t.status = TransactionStatus::Settled;
        t.processed_at = Some(now.secs);
        set_at(&mut self.transactions, ti, t);
        Ok(())
    }

    /// Settles a transaction against the wall clock. The outcome is the
    /// one `spec_settle_decision` owes; only the stamped processing
    /// time depends on the clock.
    pub fn settle_transaction(&mut self, tx_id: u128) -> (r: Result<(), PayError>)
        ensures
            (match spec_settle_decision(old(self)@, tx_id) {
                Ok(()) => r == Ok::<(), PayError>(()) && (exists|now_secs: u64|
                    final(self)@ == spec_settle_apply(old(self)@, tx_id, now_secs)),
                Err(e) => r == Err::<(), PayError>(e) && final(self)@ == old(self)@,
            }),
    {
        let now = clock_now();
        self.settle_transaction_at(tx_id, &now)
    }
}

/// Authorization reserves nothing, so capture succeeds exactly when
/// the balance still covers the amount at capture time: after an
/// authorization of `amount` records `tx_id`, and the accounts have
/// meanwhile changed arbitrarily to `accounts2` (say a concurrent debit
/// drained the balance), capture of `tx_id` succeeds if and only if the
/// owning account's balance in `accounts2` is at least `amount`; in
/// particular, when it is not, capture fails with `InsufficientFunds`
/// even though authorization succeeded.
pub proof fn lemma_capture_after_authorize(
    v: EngineView,
    card_id: u128,
    merchant_id: u128,
    amount: u64,
    currency: Currency,
    tx_id: u128,
    now_secs: u64,
    year: u16,
    month: u8,
    accounts2: Seq<Account>,
)
    requires
        spec_authorize_decision(v, card_id, merchant_id, amount, year, month) is Ok,
        spec_idx_of(v.transactions, tx_id) is None,
        spec_get(accounts2, spec_get(v.cards, card_id).unwrap().account_id) is Some,
    ensures
        ({
            let tx = spec_authorized_tx(tx_id, card_id, merchant_id, amount, currency, now_secs);
            let v1 = spec_authorize_apply(v, tx);
            let v2 = EngineView { accounts: accounts2, ..v1 };
            let account = spec_get(accounts2, spec_get(v.cards, card_id).unwrap().account_id);
            &&& (spec_capture_decision(v2, tx_id) is Ok <==> account.unwrap().balance >= amount)
            &&& (account.unwrap().balance < amount ==> spec_capture_decision(v2, tx_id) == Err::<
                (),
                PayError,
            >(PayError::InsufficientFunds))
        }),
{
    let tx = spec_authorized_tx(tx_id, card_id, merchant_id, amount, currency, now_secs);
    let v1 = spec_authorize_apply(v, tx);
    let v2 = EngineView { accounts: accounts2, ..v1 };
    crate::store::lemma_idx_of(v.transactions, tx_id);
    lemma_idx_of_append(v.transactions, tx_id, tx);
    assert(spec_get(v2.transactions, tx_id) == Some(tx));
    crate::store::lemma_get_some(v.cards, card_id);
}

/// Appending a record under a key that is absent makes the lookup find
/// exactly that record.
proof fn lemma_idx_of_append<T: Keyed>(s: Seq<T>, id: u128, rec: T)
    requires
        spec_idx_of(s, id) is None,
        rec.spec_key() == id,
    ensures
        spec_idx_of(s.push(rec), id) == Some(s.len() as int),
        spec_get(s.push(rec), id) == Some(rec),
{
    crate::store::lemma_idx_of(s, id);
    assert forall|j: int| 0 <= j < s.len() implies s.push(rec)[j].spec_key() != id by {
        assert(s.push(rec)[j] == s[j]);
    }
    assert(s.push(rec)[s.len() as int] == rec);
    crate::store::lemma_idx_of_first_match(s.push(rec), id, s.len() as int);
}

/// A transaction's status never regresses. Capture and settle move the
/// affected transaction strictly forward through the one-way state
/// machine and touch no other transaction's status; and once a
/// transaction is `Settled`, both capture and settle refuse it with
/// `InvalidState`.
pub proof fn lemma_status_never_regresses(v: EngineView, tx_id: u128, now_secs: u64)
    ensures
        spec_capture_decision(v, tx_id) is Ok ==> (forall|j: int|
            0 <= j < v.transactions.len() ==> spec_status_rank(
                #[trigger] spec_capture_apply(v, tx_id, now_secs).transactions[j].status,
            ) >= spec_status_rank(v.transactions[j].status)),
        spec_settle_decision(v, tx_id) is Ok ==> (forall|j: int|
            0 <= j < v.transactions.len() ==> spec_status_rank(
                #[trigger] spec_settle_apply(v, tx_id, now_secs).transactions[j].status,
            ) >= spec_status_rank(v.transactions[j].status)),
        (match spec_get(v.transactions, tx_id) {
            Some(t) => t.status is Settled ==> spec_capture_decision(v, tx_id) == Err::<
                (),
                PayError,
            >(
                PayError::InvalidState {
                    expected: StateLabel::Authorized,
                    actual: StateLabel::Settled,
                },
            ) && spec_settle_decision(v, tx_id) == Err::<(), PayError>(
                PayError::InvalidState {
                    expected: StateLabel::Captured,
                    actual: StateLabel::Settled,
                },
            ),
            None => true,
        }),
{
    crate::store::lemma_idx_of(v.transactions, tx_id);
    if spec_capture_decision(v, tx_id) is Ok {
        let ti = spec_idx_of(v.transactions, tx_id).unwrap();
        let v1 = spec_capture_apply(v, tx_id, now_secs);
        assert forall|j: int| 0 <= j < v.transactions.len() implies spec_status_rank(
            #[trigger] v1.transactions[j].status,
        ) >= spec_status_rank(v.transactions[j].status) by {
            if j != ti {
                assert(v1.transactions[j] == v.transactions[j]);
            }
        }
    }
    if spec_settle_decision(v, tx_id) is Ok {
        let ti = spec_idx_of(v.transactions, tx_id).unwrap();
        let v1 = spec_settle_apply(v, tx_id, now_secs);
        assert forall|j: int| 0 <= j < v.transactions.len() implies spec_status_rank(
            #[trigger] v1.transactions[j].status,
        ) >= spec_status_rank(v.transactions[j].status) by {
            if j != ti {
                assert(v1.transactions[j] == v.transactions[j]);
            }
        }
    }
}

} // verus!
