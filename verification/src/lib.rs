//! A single-pass ledger simulator: replays deposit, withdrawal, dispute,
//! resolve and chargeback records against a set of per-client accounts and
//! exposes the final account balances.
//!
//! Monetary values are fixed-precision decimals held as integer counts of
//! ten-thousandths (four fractional digits, truncated toward zero on
//! ingestion); parsing of delimited input and rendering of the output table
//! are left to the surrounding program.

pub mod account;
pub mod amount;
pub mod ledger;
