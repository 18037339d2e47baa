//! Core ledger-and-transaction engine of a card-payment processor.
//!
//! The crate tracks accounts, cards and merchants, drives the
//! authorize -> capture -> settle lifecycle of a transaction, batches
//! settled transactions for clearing, encodes transaction data into a
//! bitmap-indexed wire message, and tokenizes card numbers.

pub mod account;
pub mod card;
pub mod clock;
pub mod currency;
pub mod errors;
pub mod ids;
pub mod merchant;
pub mod messaging;
pub mod network;
pub mod security;
pub mod settlement;
pub mod store;
pub mod transaction;
pub mod utils;
