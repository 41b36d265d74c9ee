//! What the staking ledger keeps, and the steps that change it. Each step
//! leaves the sum of the stakes equal to the total.

use vstd::prelude::*;
use crate::accounts::Accounts;
use crate::bindings::{cw20_execute_json, cw20_execute_to_json};
use crate::chain::{CommonError, CosmosMsg, WasmMsg};
use crate::interface::{Cw20ExecuteMsg, Cw20Request};
use crate::sums::{all_positive_amounts, amount_of, lemma_sum_bounds, sum_of, with_amount};

verus! {

#[derive(Clone, Debug, PartialEq, Eq)]
pub struct Config {
    /// The token ledger whose tokens are staked.
    pub addr: String,
}

/// A request to the token ledger as `r` holds it: the message that asks
/// the contract `token` to execute `text`, or, where there is no text, the
/// error of writing it.
pub open spec fn is_request_of(r: Result<CosmosMsg, CommonError>, token: Seq<char>, text: Option<Seq<u8>>) -> bool {
    match text {
        Some(body) => r matches Ok(m) && m.is_execute(token, body),
        None => r == Err::<CosmosMsg, CommonError>(CommonError::SerializeErr {  }),
    }
}

/// A text as `r` holds it, or, where there is no text, the error of
/// writing it.
pub open spec fn is_text_of(r: Result<Vec<u8>, CommonError>, text: Option<Seq<u8>>) -> bool {
    match text {
        Some(body) => r matches Ok(v) && v@ == body,
        None => r == Err::<Vec<u8>, CommonError>(CommonError::SerializeErr {  }),
    }
}

/// The text of `msg` as JSON.
fn text_of(msg: &Cw20ExecuteMsg) -> (r: Result<Vec<u8>, CommonError>)
    ensures
        is_text_of(r, cw20_execute_json(msg@)),
{
    match cw20_execute_to_json(msg) {
        Ok(text) => Ok(text),
        Err(_) => Err(CommonError::SerializeErr {  }),
    }
}

impl Config {
    /// The message that asks the token ledger to execute `body`; an error
    /// in place of the body is handed on.
    pub fn execute_msg(self, body: Result<Vec<u8>, CommonError>) -> (r: Result<CosmosMsg, CommonError>)
        ensures
            match body {
                Ok(text) => r matches Ok(m) && m.is_execute(self.addr@, text@),
                Err(e) => r == Err::<CosmosMsg, CommonError>(e),
            },
    {
        let msg = match body {
            Ok(msg) => msg,
            Err(e) => {
                return Err(e);
            },
        };
        let execute = WasmMsg::Execute { contract_addr: self.addr, msg, funds: Vec::new() };
        Ok(CosmosMsg::Wasm(execute))
    }

    /// The request to move `amount` from `sender` to `recipient`, on the
    /// allowance that `sender` has given this ledger.
    pub fn new_transfer_from_msg(self, sender: &String, recipient: &String, amount: u128) -> (r: Result<
        CosmosMsg,
        CommonError,
    >)
        ensures
            is_request_of(
                r,
                self.addr@,
                cw20_execute_json(
                    Cw20Request::TransferFrom { owner: sender@, recipient: recipient@, amount },
                ),
            ),
    {
        let msg = text_of(
            &Cw20ExecuteMsg::TransferFrom { owner: sender.clone(), recipient: recipient.clone(), amount },
        );
        self.execute_msg(msg)
    }

    /// The request to move `amount` from this ledger to `recipient`.
    pub fn new_transfer(self, recipient: &String, amount: u128) -> (r: Result<CosmosMsg, CommonError>)
        ensures
            is_request_of(
                r,
                self.addr@,
                cw20_execute_json(Cw20Request::Transfer { recipient: recipient@, amount }),
            ),
    {
        let msg = text_of(&Cw20ExecuteMsg::Transfer { recipient: recipient.clone(), amount });
        self.execute_msg(msg)
    }

    /// The request to create `amount` new tokens for `recipient`.
    pub fn new_mint(self, recipient: &String, amount: u128) -> (r: Result<CosmosMsg, CommonError>)
        ensures
            is_request_of(
                r,
                self.addr@,
                cw20_execute_json(Cw20Request::Mint { recipient: recipient@, amount }),
            ),
    {
        let msg = text_of(&Cw20ExecuteMsg::Mint { recipient: recipient.clone(), amount });
        self.execute_msg(msg)
    }
}

/// The staking ledger as a mathematical value.
pub struct StakingLedgerView {
    /// The token ledger; `None` before the ledger is set up.
    pub token: Option<Seq<char>>,
    pub admin: Option<Seq<char>>,
    pub balances: Map<Seq<char>, u128>,
    pub total: u128,
}

impl StakingLedgerView {
    /// A ledger that has not been set up.
    pub open spec fn empty() -> StakingLedgerView {
        StakingLedgerView { token: None, admin: None, balances: Map::empty(), total: 0 }
    }

    /// What holds of every ledger: the stakes add up to the total, and
    /// before the ledger is set up there is neither stake nor admin.
    pub open spec fn inv(self) -> bool {
        &&& all_positive_amounts(self.balances)
        &&& sum_of(self.balances) == self.total
        &&& self.token is None ==> self.total == 0 && self.admin is None
    }
}

pub struct StakingLedger {
    config: Option<Config>,
    admin: Option<String>,
    balances: Accounts,
    total: u128,
}

/// An optional identifier as a mathematical value.
pub open spec fn name_of(s: Option<String>) -> Option<Seq<char>> {
    match s {
        Some(a) => Some(a@),
        None => None,
    }
}

impl View for StakingLedger {
    type V = StakingLedgerView;

    closed spec fn view(&self) -> StakingLedgerView {
        StakingLedgerView {
            token: match self.config {
                Some(c) => Some(c.addr@),
                None => None,
            },
            admin: name_of(self.admin),
            balances: self.balances@,
            total: self.total,
        }
    }
}

impl StakingLedger {
    pub closed spec fn wf(&self) -> bool {
        &&& self.balances.wf()
        &&& self@.inv()
    }

    /// In every ledger the stakes add up to the total.
    pub proof fn lemma_inv(&self)
        requires
            self.wf(),
        ensures
            self@.inv(),
    {
    }

    /// A ledger that has not been set up.
    pub fn new() -> (r: StakingLedger)
        ensures
            r.wf(),
            r@ == StakingLedgerView::empty(),
    {
        StakingLedger { config: None, admin: None, balances: Accounts::new(), total: 0 }
    }

    pub fn config(&self) -> (r: &Option<Config>)
        ensures
            match *r {
                Some(c) => self@.token == Some(c.addr@),
                None => self@.token is None,
            },
    {
        &self.config
    }

    pub fn admin(&self) -> (r: &Option<String>)
        ensures
            name_of(*r) == self@.admin,
    {
        &self.admin
    }

    pub fn total(&self) -> (r: u128)
        ensures
            r == self@.total,
    {
        self.total
    }

    pub fn balances(&self) -> (r: &Accounts)
        requires
            self.wf(),
        ensures
            r.wf(),
            r@ == self@.balances,
    {
        &self.balances
    }

    /// Adds `amount` to the stake of `staker` and to the total.
    pub(crate) fn add_stake(&mut self, staker: &String, amount: u128)
        requires
            old(self).wf(),
            old(self)@.token is Some,
            old(self)@.total + amount <= u128::MAX,
        ensures
            final(self).wf(),
            final(self)@ == (StakingLedgerView {
                balances: with_amount(
                    old(self)@.balances,
                    staker@,
                    (amount_of(old(self)@.balances, staker@) + amount) as u128,
                ),
                total: (old(self)@.total + amount) as u128,
                ..old(self)@
            }),
    {
        proof {
            self.balances.lemma_wf();
            lemma_sum_bounds(self.balances@, staker@);
        }
        let raised = self.balances.balance(staker) + amount;
        self.balances.set(staker, raised);
        self.total = self.total + amount;
    }

    /// Takes `amount` from the stake of `staker` and from the total.
    pub(crate) fn remove_stake(&mut self, staker: &String, amount: u128)
        requires
            old(self).wf(),
            amount <= amount_of(old(self)@.balances, staker@),
        ensures
            final(self).wf(),
            final(self)@ == (StakingLedgerView {
                balances: with_amount(
                    old(self)@.balances,
                    staker@,
                    (amount_of(old(self)@.balances, staker@) - amount) as u128,
                ),
                total: (old(self)@.total - amount) as u128,
                ..old(self)@
            }),
    {
        proof {
            self.balances.lemma_wf();
            lemma_sum_bounds(self.balances@, staker@);
        }
        let rest = self.balances.balance(staker) - amount;
        self.balances.set(staker, rest);
        self.total = self.total - amount;
    }

    /// Names the admin, or states that there is none.
    pub(crate) fn set_admin(&mut self, admin: Option<String>)
        requires
            old(self).wf(),
            old(self)@.token is Some,
        ensures
            final(self).wf(),
            final(self)@ == (StakingLedgerView { admin: name_of(admin), ..old(self)@ }),
    {
        self.admin = admin;
    }

    /// The ledger made of the given parts.
    pub(crate) fn assemble(config: Option<Config>, admin: Option<String>, balances: Accounts, total: u128) -> (r:
        StakingLedger)
        requires
            balances.wf(),
            balances.total() == total,
            config is None ==> total == 0 && admin is None,
        ensures
            r.wf(),
            r@ == (StakingLedgerView {
                token: match config {
                    Some(c) => Some(c.addr@),
                    None => None,
                },
                admin: name_of(admin),
                balances: balances@,
                total,
            }),
    {
        proof {
            balances.lemma_wf();
        }
        StakingLedger { config, admin, balances, total }
    }

    /// Replaces what the ledger holds by a ledger without stakes that
    /// knows the token ledger `config` and the admin `admin`.
    pub(crate) fn reset(&mut self, config: Config, admin: Option<String>)
        ensures
            final(self).wf(),
            final(self)@ == (StakingLedgerView {
                token: Some(config.addr@),
                admin: name_of(admin),
                ..StakingLedgerView::empty()
            }),
    {
        self.config = Some(config);
        self.admin = admin;
        self.balances = Accounts::new();
        self.total = 0;
    }
}

} // verus!
