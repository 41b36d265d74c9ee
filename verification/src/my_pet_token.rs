//! The token ledger: balances, allowances and the rate-limited minter.

pub mod allowances;
pub mod contract;
pub mod enumerable;
pub mod error;
pub mod msg;
pub mod state;
pub mod store;
