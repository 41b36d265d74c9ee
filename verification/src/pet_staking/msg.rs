use vstd::prelude::*;

verus! {

#[derive(Clone, Debug, PartialEq, Eq)]
pub struct InstantiateMsg {
    /// The token ledger whose tokens are staked.
    pub addr: String,
    /// The admin, who alone may name another admin.
    pub admin: Option<String>,
}

#[derive(Clone, Debug, PartialEq, Eq)]
pub enum ExecuteMsg {
    Stake { amount: u128 },
    Withdraw { amount: u128 },
    Mint { amount: u128 },
    UpdateAdmin { admin: Option<String> },
}

#[derive(Clone, Debug, PartialEq, Eq)]
pub enum ReceiveMsg {
    /// The only message that may come with received tokens: stake them.
    Bond {},
}

#[derive(Clone, Debug, PartialEq, Eq)]
pub enum QueryMsg {
    /// What the account has staked.
    Staked { address: String },
    Admin {},
    /// What all accounts together have staked.
    TotalStaked {},
}

#[derive(Clone, Copy, Debug, PartialEq, Eq, Structural)]
pub struct StakedResponse {
    pub stake: u128,
}

#[derive(Clone, Copy, Debug, PartialEq, Eq, Structural)]
pub struct TotalStakeResponse {
    pub stake: u128,
}

#[derive(Clone, Debug, PartialEq, Eq)]
pub struct AdminResponse {
    pub admin: Option<String>,
}

/// The answer to a query, one variant for each kind of query.
#[derive(Clone, Debug, PartialEq, Eq)]
pub enum QueryResponse {
    Staked(StakedResponse),
    Admin(AdminResponse),
    TotalStaked(TotalStakeResponse),
}

} // verus!
