//! The staking ledger: stakes by account, kept in step with the token
//! ledger by the requests it sends there.

pub mod contract;
pub mod error;
pub mod msg;
pub mod state;
pub mod store;
