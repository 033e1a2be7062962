//! A small ledger that replays an ordered log of per-client financial
//! transactions (deposits, withdrawals, and the dispute lifecycle) into final
//! account balances.
//!
//! Monetary amounts are exact fixed-point decimals, carried as `u64` counts of
//! millionths (10^-6) of the currency unit. Output rows round to four decimal
//! places, so their fields are counts of ten-thousandths (10^-4).

pub mod account;
pub mod engine;
pub mod transaction;
