//! A ledger of client accounts driven by a stream of deposits, withdrawals
//! and the dispute lifecycle (dispute, resolve, chargeback).
//!
//! Amounts are fixed-point integers: `UNITS_PER_WHOLE` units make one whole
//! currency unit, so every balance is exact.
pub mod account;
pub mod decimal;
pub mod laws;
pub mod transaction;
pub mod transaction_parser;
pub mod transaction_processor;
