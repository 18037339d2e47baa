//! Payment cards, owned by the registry.
//!
//! Expiry is a derived fact, never stored: it is computed from a clock
//! reading against the card's expiry month. A card is treated as expired
//! from the first day of its expiry month on.

use vstd::prelude::*;
use crate::clock::{clock_now, ClockReading};
use crate::ids::fresh_u128;

verus! {

/// Lifecycle status of a card.
#[derive(Clone, Copy, Debug, PartialEq, Eq, Structural)]
pub enum CardStatus {
    Active,
    Blocked,
    Expired,
}

/// A payment card. It references its owning account by identity; the
/// account itself is owned by the ledger.
#[derive(Clone, Debug)]
pub struct PaymentCard {
    /// Identity of the card.
    pub id: u128,
    /// Identity of the owning account.
    pub account_id: u128,
    /// Primary account number (masked outside the security manager).
    pub pan: String,
    /// Expiry month, 1 to 12.
    pub expiry_month: u8,
    /// Expiry year.
    pub expiry_year: u16,
    /// Card verification value.
    pub cvv: String,
    /// Name embossed on the card.
    pub cardholder_name: String,
    /// Lifecycle status.
    pub status: CardStatus,
    /// Seconds since the Unix epoch at which the card was issued.
    pub issued_at: u64,
}

impl crate::store::Keyed for PaymentCard {
    open spec fn spec_key(&self) -> u128 {
        self.id
    }

    fn key(&self) -> (k: u128)
        ensures
            k == self.spec_key(),
    {
        self.id
    }
}

impl PaymentCard {
    /// Whether the card counts as expired at the calendar month
    /// (`year`, `month`): from the first day of the expiry month on.
    pub open spec fn spec_expired_at(self, year: u16, month: u8) -> bool {
        year > self.expiry_year || (year == self.expiry_year && month >= self.expiry_month)
    }

    /// Issues a new card against `account_id`, `Active` and stamped by
    /// the clock; the identity comes from the random-id source.
    pub fn new(
        account_id: u128,
        pan: String,
        expiry_month: u8,
        expiry_year: u16,
        cvv: String,
        cardholder_name: String,
    ) -> (r: PaymentCard)
        ensures
            r.account_id == account_id,
            r.pan@ == pan@,
            r.expiry_month == expiry_month,
            r.expiry_year == expiry_year,
            r.cvv@ == cvv@,
            r.cardholder_name@ == cardholder_name@,
            r.status is Active,
    {
        PaymentCard {
            id: fresh_u128(),
            account_id,
            pan,
            expiry_month,
            expiry_year,
            cvv,
            cardholder_name,
            status: CardStatus::Active,
            issued_at: clock_now().secs,
        }
    }

    /// Whether the card counts as expired at the instant `now`.
    pub fn is_expired_at(&self, now: &ClockReading) -> (r: bool)
        ensures
            r == self.spec_expired_at(now.year, now.month),
    {
        now.year > self.expiry_year
            || (now.year == self.expiry_year && now.month >= self.expiry_month)
    }

    /// Whether the card can pay at the instant `now`: its status is
    /// `Active` and its expiry month has not been reached. Expiry is
    /// evaluated afresh on every call, never cached.
    pub fn is_active_and_unexpired_at(&self, now: &ClockReading) -> (r: bool)
        ensures
            r == (self.status is Active && !self.spec_expired_at(now.year, now.month)),
    {
        matches!(self.status, CardStatus::Active) && !self.is_expired_at(now)
    }

    /// Whether the card can pay right now. The result depends on the
    /// wall clock: it equals the decision for some valid reading of it.
    pub fn is_active_and_unexpired(&self) -> (r: bool)
        ensures
            exists|c: ClockReading|
                c.wf() && r == (self.status is Active && !self.spec_expired_at(c.year, c.month)),
    {
        let now = clock_now();
        let r = self.is_active_and_unexpired_at(&now);
        proof {
            assert(now.wf() && r == (self.status is Active && !self.spec_expired_at(
                now.year,
                now.month,
            )));
        }
        r
    }

    /// Whether the card is expired right now. The result depends on the
    /// wall clock: it equals the expiry decision for some valid reading
    /// of it.
    pub fn is_expired(&self) -> (r: bool)
        ensures
            exists|c: ClockReading| c.wf() && r == self.spec_expired_at(c.year, c.month),
    {
        let now = clock_now();
        let r = self.is_expired_at(&now);
        proof {
            assert(now.wf() && r == self.spec_expired_at(now.year, now.month));
        }
        r
    }
}

} // verus!
