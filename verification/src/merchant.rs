//! Merchants, owned by the registry.

use vstd::prelude::*;
use crate::clock::clock_now;
use crate::ids::fresh_u128;

verus! {

/// Lifecycle status of a merchant.
#[derive(Clone, Copy, Debug, PartialEq, Eq, Structural)]
pub enum MerchantStatus {
    Active,
    Suspended,
    Closed,
}

/// A merchant that submits transactions through an acquirer.
#[derive(Clone, Debug)]
pub struct Merchant {
    /// Identity of the merchant.
    pub id: u128,
    /// Trading name.
    pub name: String,
    /// Business category.
    pub category: String,
    /// Identity of the bank that acquires for this merchant.
    pub acquirer_id: u128,
    /// Lifecycle status.
    pub status: MerchantStatus,
    /// Seconds since the Unix epoch at which the merchant registered.
    pub registered_at: u64,
}

impl crate::store::Keyed for Merchant {
    open spec fn spec_key(&self) -> u128 {
        self.id
    }

    fn key(&self) -> (k: u128)
        ensures
            k == self.spec_key(),
    {
        self.id
    }
}

impl Merchant {
    /// Registers a new merchant, `Active` and stamped by the clock; the
    /// identity comes from the random-id source.
    pub fn new(name: String, category: String, acquirer_id: u128) -> (r: Merchant)
        ensures
            r.name@ == name@,
            r.category@ == category@,
            r.acquirer_id == acquirer_id,
            r.status is Active,
    {
        Merchant {
            id: fresh_u128(),
            name,
            category,
            acquirer_id,
            status: MerchantStatus::Active,
            registered_at: clock_now().secs,
        }
    }
}

} // verus!
