//! A transaction processing engine for a small payments system.
//!
//! Deposits, withdrawals, disputes, resolves and chargebacks are applied to
//! per-client accounts under the dispute rules of [`domain::operations`]. Every
//! function carries a contract over a mathematical model of the state, and the
//! contracts are checked by Verus.

pub mod domain;
pub mod storage;
pub mod engine;
pub mod io;
pub mod prelude;
pub mod streaming;
