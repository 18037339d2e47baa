//! Accounts and the fund-movement primitives of the ledger.
//!
//! Balances are whole, non-negative amounts in units of the account's
//! currency. Debit and credit are the only mutators; a debit that would
//! take the balance below zero fails and changes nothing.

use vstd::prelude::*;
use crate::currency::Currency;
use crate::errors::PayError;
use crate::clock::clock_now;
use crate::ids::fresh_u128;

verus! {

/// Lifecycle status of an account. A closed account is never deleted.
#[derive(Clone, Copy, Debug, PartialEq, Eq, Structural)]
pub enum AccountStatus {
    Active,
    Frozen,
    Closed,
}

/// A cardholder's account, owned by the ledger.
#[derive(Clone, Debug)]
pub struct Account {
    /// Identity of the account.
    pub id: u128,
    /// Name of the account holder.
    pub holder_name: String,
    /// Current balance, in whole units of `currency`. Being unsigned,
    /// it can never go below zero.
    pub balance: u64,
    /// Currency the balance is denominated in.
    pub currency: Currency,
    /// Seconds since the Unix epoch at which the account was opened.
    pub created_at: u64,
    /// Lifecycle status.
    pub status: AccountStatus,
}

/// One successful fund movement, as recorded against an account.
pub enum LedgerOp {
    Credit(u64),
    Debit(u64),
}

/// The balance after applying `op` to `balance`, or `None` where the
/// operation cannot succeed (a debit past zero, a credit past the
/// machine's largest representable balance).
pub open spec fn spec_apply_op(balance: u64, op: LedgerOp) -> Option<u64> {
    match op {
        LedgerOp::Credit(amount) => {
            if balance + amount <= u64::MAX {
                Some((balance + amount) as u64)
            } else {
                None
            }
        },
        LedgerOp::Debit(amount) => {
            if amount <= balance {
                Some((balance - amount) as u64)
            } else {
                None
            }
        },
    }
}

/// The balance after applying a sequence of fund movements in order, or
/// `None` if any one of them cannot succeed.
pub open spec fn spec_run_ledger(balance: u64, ops: Seq<LedgerOp>) -> Option<u64>
    decreases ops.len(),
{
    if ops.len() == 0 {
        Some(balance)
    } else {
        match spec_apply_op(balance, ops[0]) {
            Some(b) => spec_run_ledger(b, ops.drop_first()),
            None => None,
        }
    }
}

/// Total amount credited by a sequence of fund movements.
pub open spec fn spec_total_credited(ops: Seq<LedgerOp>) -> int
    decreases ops.len(),
{
    if ops.len() == 0 {
        0
    } else {
        (match ops[0] {
            LedgerOp::Credit(amount) => amount as int,
            LedgerOp::Debit(_) => 0,
        }) + spec_total_credited(ops.drop_first())
    }
}

/// Total amount debited by a sequence of fund movements.
pub open spec fn spec_total_debited(ops: Seq<LedgerOp>) -> int
    decreases ops.len(),
{
    if ops.len() == 0 {
        0
    } else {
        (match ops[0] {
            LedgerOp::Debit(amount) => amount as int,
            LedgerOp::Credit(_) => 0,
        }) + spec_total_debited(ops.drop_first())
    }
}

/// After any sequence of successful debits and credits, the balance
/// equals the initial balance plus the total credited minus the total
/// debited, and is never negative.
pub proof fn lemma_ledger_accounting(balance: u64, ops: Seq<LedgerOp>)
    requires
        spec_run_ledger(balance, ops) is Some,
    ensures
        spec_run_ledger(balance, ops).unwrap() as int == balance as int
            + spec_total_credited(ops) - spec_total_debited(ops),
        spec_run_ledger(balance, ops).unwrap() as int >= 0,
    decreases ops.len(),
{
    if ops.len() > 0 {
        let b1 = spec_apply_op(balance, ops[0]).unwrap();
        lemma_ledger_accounting(b1, ops.drop_first());
    }
}

impl crate::store::Keyed for Account {
    open spec fn spec_key(&self) -> u128 {
        self.id
    }

    fn key(&self) -> (k: u128)
        ensures
            k == self.spec_key(),
    {
        self.id
    }
}

impl Account {
    /// Opens a new account for `holder_name`, denominated in `currency`,
    /// with a zero balance and `Active` status. The identity and the
    /// creation timestamp come from the random-id source and the clock.
    pub fn new(holder_name: String, currency: Currency) -> (r: Account)
        ensures
            r.holder_name@ == holder_name@,
            r.balance == 0,
            r.currency == currency,
            r.status is Active,
    {
        Account {
            id: fresh_u128(),
            holder_name,
            balance: 0,
            currency,
            created_at: clock_now().secs,
            status: AccountStatus::Active,
        }
    }

    /// Debits `amount` from the account. Fails with `InsufficientFunds`
    /// and leaves the balance unchanged when the balance is smaller than
    /// `amount`; otherwise decreases the balance by exactly `amount`.
    pub fn debit(&mut self, amount: u64) -> (r: Result<(), PayError>)
        ensures
            r is Ok <==> amount <= old(self).balance,
            r is Ok ==> *final(self) == (Account {
                balance: (old(self).balance - amount) as u64,
                ..*old(self)
            }),
            r is Ok ==> (Some(final(self).balance)
                == spec_apply_op(old(self).balance, LedgerOp::Debit(amount))),
            r is Err ==> *final(self) == *old(self) && r == Err::<(), PayError>(PayError::InsufficientFunds),
    {
        if self.balance >= amount {
            self.balance = self.balance - amount;
            Ok(())
        } else {
            Err(PayError::InsufficientFunds)
        }
    }

    /// Credits `amount` to the account, unconditionally increasing the
    /// balance by exactly `amount`. The caller keeps the balance within
    /// the machine's representable range.
    pub fn credit(&mut self, amount: u64)
        requires
            old(self).balance + amount <= u64::MAX,
        ensures
            *final(self) == (Account {
                balance: (old(self).balance + amount) as u64,
                ..*old(self)
            }),
            (Some(final(self).balance)
                == spec_apply_op(old(self).balance, LedgerOp::Credit(amount))),
    {
        self.balance = self.balance + amount;
    }
}

} // verus!
