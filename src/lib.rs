//! A transaction-processing engine for client accounts: deposits,
//! withdrawals and the dispute / resolve / chargeback protocol, with
//! amounts held as signed fixed-point integers.
//!
//! - `amount`: decimal text and fixed-point amounts.
//! - `record`: incoming records and how their fields are read.
//! - `account`: one client's balances and the operations on them.
//! - `engine`: the engine that applies records, specified by `engine::step`.
//! - `laws`: properties of the engine over runs of records.

pub mod amount;
pub mod rejection;
pub mod record;
pub mod account;
pub mod engine;
pub mod laws;
