//! A replay engine for client payment records.
//!
//! Deposits, withdrawals, disputes, resolutions and chargebacks are applied in
//! order to per-client accounts. Money is held as an unsigned count of
//! ten-thousandths, and every balance change is checked against the range of
//! `u128`.

pub mod account;
pub mod amount;
pub mod error;
pub mod laws;
pub mod payments;
pub mod storage;
