//! A ledger of client accounts driven by deposits, withdrawals, disputes, resolutions and
//! chargebacks, with exact decimal amounts and per-transaction dispute status.

pub mod account;
pub mod amount;
pub mod engine;
pub mod transaction;
