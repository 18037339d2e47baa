//! Typed errors returned by every operation of the engine.
//!
//! All errors are recoverable at the call site: a failed operation
//! leaves the engine's state unchanged.

use vstd::prelude::*;

verus! {

/// The kind of record a lookup failed to find.
#[derive(Clone, Copy, Debug, PartialEq, Eq, Structural)]
pub enum Entity {
    Account,
    Card,
    Merchant,
    Transaction,
    Batch,
}

/// A status name, used to report an invalid state transition.
///
/// Covers both the transaction and the settlement state machines.
#[derive(Clone, Copy, Debug, PartialEq, Eq, Structural)]
pub enum StateLabel {
    Pending,
    Authorized,
    Captured,
    Settled,
    Declined,
    Reversed,
    Processing,
    Completed,
    Failed,
}

/// Error taxonomy of the engine.
#[derive(Clone, Copy, Debug, PartialEq, Eq, Structural)]
pub enum PayError {
    /// A referenced record does not exist.
    NotFound(Entity),
    /// A state-machine operation was applied in the wrong state.
    InvalidState { expected: StateLabel, actual: StateLabel },
    /// A debit would take the balance below zero.
    InsufficientFunds,
    /// A zero amount was supplied where a positive one is required.
    InvalidAmount,
    /// The card's expiry month has passed.
    CardExpired,
    /// The card is blocked or marked expired.
    CardInactive,
    /// The merchant is suspended or closed.
    MerchantInactive,
    /// The account is frozen or closed.
    AccountInactive,
    /// The fraud screen flagged the amount.
    FraudFlagged,
    /// A wire message is shorter than its fixed header.
    TruncatedMessage,
    /// A declared field length would read past the end of the buffer.
    InvalidFieldLength,
    /// A field payload is not valid UTF-8.
    InvalidEncoding,
    /// Key setup, encryption or decryption failed.
    CryptoFailure,
}

impl PayError {
    /// A short human-readable description of the error.
    pub fn describe(&self) -> (r: &'static str)
    {
        match self {
            PayError::NotFound(Entity::Account) => "account not found",
            PayError::NotFound(Entity::Card) => "card not found",
            PayError::NotFound(Entity::Merchant) => "merchant not found",
            PayError::NotFound(Entity::Transaction) => "transaction not found",
            PayError::NotFound(Entity::Batch) => "batch not found",
            PayError::InvalidState { .. } => "invalid state for this operation",
            PayError::InsufficientFunds => "insufficient funds",
            PayError::InvalidAmount => "amount must be positive",
            PayError::CardExpired => "card expired",
            PayError::CardInactive => "card not active",
            PayError::MerchantInactive => "merchant not active",
            PayError::AccountInactive => "account not active",
            PayError::FraudFlagged => "transaction flagged for fraud",
            PayError::TruncatedMessage => "message too short",
            PayError::InvalidFieldLength => "invalid field length",
            PayError::InvalidEncoding => "invalid encoding",
            PayError::CryptoFailure => "cryptographic operation failed",
        }
    }
}

} // verus!
