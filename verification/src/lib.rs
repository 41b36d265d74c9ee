//! Accounting core of two cooperating ledgers: a fungible-token ledger with
//! allowances and a rate-limited minter, and a staking ledger that moves
//! tokens by sending requests to the token ledger.

pub mod accounts;
pub mod bindings;
pub mod chain;
pub mod interface;
pub mod my_pet_token;
pub mod order;
pub mod pet_staking;
pub mod protocol;
pub mod sorted_map;
pub mod sums;
