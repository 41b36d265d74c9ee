//! The staking ledger as a key-value store keeps it, record by record, and
//! the way from such records to a ledger and back.

use vstd::prelude::*;
use crate::accounts::{has_duplicates, lemma_seeded_total, seed_total, seeded, Accounts};
use crate::interface::Cw20Coin;
use crate::my_pet_token::contract::create_accounts;
use crate::pet_staking::state::{name_of, Config, StakingLedger, StakingLedgerView};

verus! {

/// The records of a staking ledger: the token ledger it knows, the admin,
/// the stakes, and their total.
#[derive(Clone, Debug, PartialEq, Eq)]
pub struct Stored {
    pub config: Option<Config>,
    pub admin: Option<String>,
    pub balances: Vec<Cw20Coin>,
    pub total: u128,
}

impl Stored {
    /// The records are those of a ledger: no account has two stakes, the
    /// stakes add up to the total, and a ledger that does not know the
    /// token ledger has neither stake nor admin.
    pub open spec fn sound(&self) -> bool {
        &&& !has_duplicates(self.balances@)
        &&& seed_total(self.balances@) == self.total
        &&& self.config is None ==> self.total == 0 && self.admin is None
    }

    /// The ledger that the records describe.
    pub open spec fn ledger(&self) -> StakingLedgerView {
        StakingLedgerView {
            token: match self.config {
                Some(c) => Some(c.addr@),
                None => None,
            },
            admin: name_of(self.admin),
            balances: seeded(Map::empty(), self.balances@),
            total: self.total,
        }
    }
}

/// The ledger that the records describe, or `None` where they are not
/// those of a ledger.
pub fn restore(stored: Stored) -> (r: Option<StakingLedger>)
    ensures
        stored.sound() ==> (r matches Some(ledger) && ledger.wf() && ledger@ == stored.ledger()),
        !stored.sound() ==> r is None,
{
    let mut balances = Accounts::new();
    let total = match create_accounts(&mut balances, stored.balances.as_slice()) {
        Ok(total) => total,
        Err(_) => {
            return None;
        },
    };
    if total != stored.total {
        return None;
    }
    if stored.config.is_none() && (stored.total != 0 || stored.admin.is_some()) {
        return None;
    }
    proof {
        lemma_seeded_total(stored.balances@);
    }
    Some(StakingLedger::assemble(stored.config, stored.admin, balances, stored.total))
}

/// The records of the ledger. They describe the ledger: restoring them
/// gives a ledger that holds the same.
pub fn export(ledger: &StakingLedger) -> (r: Stored)
    requires
        ledger.wf(),
    ensures
        r.sound(),
        r.ledger() == ledger@,
{
    proof {
        ledger.lemma_inv();
    }
    let config = match ledger.config() {
        Some(c) => Some(Config { addr: c.addr.clone() }),
        None => None,
    };
    let admin = match ledger.admin() {
        Some(a) => Some(a.clone()),
        None => None,
    };
    Stored { config, admin, balances: ledger.balances().to_vec(), total: ledger.total() }
}

} // verus!
