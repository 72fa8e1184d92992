//! A deterministic replay engine for client account ledgers.
//!
//! The engine ingests an ordered sequence of transaction records
//! (deposit, withdrawal, dispute, resolve, chargeback), applies each one
//! to the addressed account, and can render a final balance summary per
//! account. Money is a signed 64-bit fixed-point integer at scale
//! 1/10,000 of a currency unit; no floating point is used anywhere.

pub mod account;
pub mod book;
pub mod codec;
pub mod execution;
pub mod laws;
pub mod ledger;
pub mod render;
pub mod traits;
pub mod transaction;
