//! The operations of the staking ledger. Each of stake, withdraw and mint
//! hands the host one request to the token ledger, which the host carries
//! out together with the ledger's own change or not at all. An operation
//! that fails leaves the ledger as it was.

use vstd::prelude::*;
use crate::bindings::{checked_add, checked_sub, cw20_execute_json};
use crate::chain::{CommonError, CosmosMsg, Env, MessageInfo, OverflowOperation, Response, SubMsg};
use crate::interface::Cw20Request;
use crate::pet_staking::error::{insufficient, overflow, AdminError, ContractError};
use crate::pet_staking::msg::{
    AdminResponse, ExecuteMsg, InstantiateMsg, QueryMsg, QueryResponse, StakedResponse,
    TotalStakeResponse,
};
use crate::pet_staking::state::{name_of, Config, StakingLedger, StakingLedgerView};
use crate::sums::{amount_of, with_amount};

verus! {

/// The operation succeeded and sends no message.
pub open spec fn quiet_ok(r: Result<Response, ContractError>) -> bool {
    r matches Ok(res) && res.messages@.len() == 0
}

/// The operation succeeded and sends `msg`, and nothing else, without
/// asking for a reply.
pub open spec fn sends(r: Result<Response, ContractError>, msg: CosmosMsg) -> bool {
    r matches Ok(res) && res.messages@.len() == 1 && res.messages@[0].forgets() && res.messages@[0].msg
        == msg
}

/// The operation succeeded and sends the token ledger `token` the request
/// `text`, and nothing else, without asking for a reply.
pub open spec fn requests(r: Result<Response, ContractError>, token: Seq<char>, text: Seq<u8>) -> bool {
    r matches Ok(res) && res.messages@.len() == 1 && res.messages@[0].is_request(token, text)
}

/// Sets the ledger up, in place of whatever it held: without stakes, with
/// the token ledger and the admin that `msg` names.
pub fn instantiate(state: &mut StakingLedger, _env: Env, _info: MessageInfo, msg: InstantiateMsg) -> (r: Result<
    Response,
    ContractError,
>)
    ensures
        final(state).wf(),
        quiet_ok(r),
        final(state)@ == (StakingLedgerView {
            token: Some(msg.addr@),
            admin: name_of(msg.admin),
            ..StakingLedgerView::empty()
        }),
{
    let config = Config { addr: msg.addr };
    state.reset(config, msg.admin);
    Ok(Response::new())
}

/// Why a change of the admin is refused, if it is: the ledger has not been
/// set up, or the caller is not the admin.
pub open spec fn update_admin_error(pre: StakingLedgerView, caller: Seq<char>) -> Option<ContractError> {
    if pre.token is None {
        Some(ContractError::Admin(AdminError::Std(CommonError::NotFound {  })))
    } else if pre.admin != Some(caller) {
        Some(ContractError::Admin(AdminError::NotAdmin {  }))
    } else {
        None
    }
}

/// Puts `admin` in the place of the admin, if the caller is the admin.
pub fn execute_update_admin(state: &mut StakingLedger, info: MessageInfo, admin: Option<String>) -> (r: Result<
    Response,
    ContractError,
>)
    requires
        old(state).wf(),
    ensures
        final(state).wf(),
        match update_admin_error(old(state)@, info.sender@) {
            Some(e) => r == Err::<Response, ContractError>(e) && final(state)@ == old(state)@,
            None => quiet_ok(r) && final(state)@ == (StakingLedgerView {
                admin: name_of(admin),
                ..old(state)@
            }),
        },
{
    if state.config().is_none() {
        return Err(ContractError::Admin(AdminError::Std(CommonError::NotFound {  })));
    }
    let is_admin = match state.admin() {
        Some(owner) => info.sender == *owner,
        None => false,
    };
    if !is_admin {
        return Err(ContractError::Admin(AdminError::NotAdmin {  }));
    }
    state.set_admin(admin);
    Ok(Response::new())
}

/// Why a request to mint is refused, if it is: the ledger does not know the
/// token ledger, or the request could not be written.
pub open spec fn mint_error(pre: StakingLedgerView, request: Result<CosmosMsg, CommonError>) -> Option<
    ContractError,
> {
    if pre.token is None {
        Some(ContractError::Unauthorized {  })
    } else {
        match request {
            Err(e) => Some(ContractError::Std(e)),
            Ok(_) => None,
        }
    }
}

/// Hands the host `request`, the request to the token ledger to mint for
/// the caller. The ledger itself does not change.
pub fn mint_with(state: &StakingLedger, request: Result<CosmosMsg, CommonError>) -> (r: Result<
    Response,
    ContractError,
>)
    ensures
        match mint_error(state@, request) {
            Some(e) => r == Err::<Response, ContractError>(e),
            None => sends(r, request->Ok_0),
        },
{
    if state.config().is_none() {
        return Err(ContractError::Unauthorized {  });
    }
    match request {
        Ok(msg) => Ok(Response::new().add_submessage(SubMsg::new(msg))),
        Err(e) => Err(ContractError::Std(e)),
    }
}

/// Asks the token ledger to create `amount` new tokens for the caller, in
/// the caller's name. The ledger itself does not change: whether the
/// caller may mint is for the token ledger to say.
pub fn mint(state: &mut StakingLedger, _env: Env, info: MessageInfo, amount: u128) -> (r: Result<
    Response,
    ContractError,
>)
    requires
        old(state).wf(),
    ensures
        final(state).wf(),
        final(state)@ == old(state)@,
        match old(state)@.token {
            None => r == Err::<Response, ContractError>(ContractError::Unauthorized {  }),
            Some(token) => match cw20_execute_json(Cw20Request::Mint { recipient: info.sender@, amount }) {
                None => r == Err::<Response, ContractError>(
                    ContractError::Std(CommonError::SerializeErr {  }),
                ),
                Some(text) => requests(r, token, text),
            },
        },
{
    let request = match state.config() {
        Some(config) => Config { addr: config.addr.clone() }.new_mint(&info.sender, amount),
        None => {
            return Err(ContractError::Unauthorized {  });
        },
    };
    mint_with(state, request)
}

/// Why a withdrawal is refused by what the ledger holds, if it is: the
/// ledger has not been set up, less than `amount` is staked in all, or the
/// caller has staked less than `amount`.
pub open spec fn withdraw_refusal(pre: StakingLedgerView, caller: Seq<char>, amount: u128) -> Option<
    ContractError,
> {
    if pre.token is None {
        Some(ContractError::NoData {  })
    } else if amount > pre.total {
        Some(ContractError::NoFunds {  })
    } else if amount > amount_of(pre.balances, caller) {
        Some(insufficient())
    } else {
        None
    }
}

/// Why a withdrawal is refused, if it is: by what the ledger holds, or
/// because the request to the token ledger could not be written.
pub open spec fn withdraw_error(
    pre: StakingLedgerView,
    caller: Seq<char>,
    amount: u128,
    request: Result<CosmosMsg, CommonError>,
) -> Option<ContractError> {
    match withdraw_refusal(pre, caller, amount) {
        Some(e) => Some(e),
        None => match request {
            Err(e) => Some(ContractError::Std(e)),
            Ok(_) => None,
        },
    }
}

/// The ledger after `caller` has withdrawn `amount`.
pub open spec fn after_withdraw(pre: StakingLedgerView, caller: Seq<char>, amount: u128) -> StakingLedgerView {
    StakingLedgerView {
        balances: with_amount(pre.balances, caller, (amount_of(pre.balances, caller) - amount) as u128),
        total: (pre.total - amount) as u128,
        ..pre
    }
}

/// Takes `amount` from the caller's stake and from the total, and hands
/// the host `request`, the request to the token ledger to pay the caller.
pub fn withdraw_with(
    state: &mut StakingLedger,
    info: MessageInfo,
    amount: u128,
    request: Result<CosmosMsg, CommonError>,
) -> (r: Result<Response, ContractError>)
    requires
        old(state).wf(),
    ensures
        final(state).wf(),
        match withdraw_error(old(state)@, info.sender@, amount, request) {
            Some(e) => r == Err::<Response, ContractError>(e) && final(state)@ == old(state)@,
            None => sends(r, request->Ok_0) && final(state)@ == after_withdraw(
                old(state)@,
                info.sender@,
                amount,
            ),
        },
{
    if state.config().is_none() {
        return Err(ContractError::NoData {  });
    }
    if checked_sub(state.total(), amount).is_err() {
        return Err(ContractError::NoFunds {  });
    }
    if checked_sub(state.balances().balance(&info.sender), amount).is_err() {
        return Err(ContractError::Std(CommonError::Overflow { operation: OverflowOperation::Sub }));
    }
    let msg = match request {
        Ok(msg) => msg,
        Err(e) => {
            return Err(ContractError::Std(e));
        },
    };
    state.remove_stake(&info.sender, amount);
    Ok(Response::new().add_submessage(SubMsg::new(msg)))
}

/// Takes `amount` from the caller's stake and from the total, and asks the
/// token ledger to move `amount` from this ledger to the caller.
pub fn withdraw(state: &mut StakingLedger, _env: Env, info: MessageInfo, amount: u128) -> (r: Result<
    Response,
    ContractError,
>)
    requires
        old(state).wf(),
    ensures
        final(state).wf(),
        match withdraw_refusal(old(state)@, info.sender@, amount) {
            Some(e) => r == Err::<Response, ContractError>(e) && final(state)@ == old(state)@,
            None => match cw20_execute_json(Cw20Request::Transfer { recipient: info.sender@, amount }) {
                None => r == Err::<Response, ContractError>(
                    ContractError::Std(CommonError::SerializeErr {  }),
                ) && final(state)@ == old(state)@,
                Some(text) => requests(r, old(state)@.token->0, text) && final(state)@ == after_withdraw(
                    old(state)@,
                    info.sender@,
                    amount,
                ),
            },
        },
{
    let request = match state.config() {
        Some(config) => Config { addr: config.addr.clone() }.new_transfer(&info.sender, amount),
        None => {
            return Err(ContractError::NoData {  });
        },
    };
    withdraw_with(state, info, amount, request)
}

/// Why a stake is refused by what the ledger holds, if it is: the ledger
/// has not been set up, or the caller's stake or the total would leave the
/// range of an amount.
pub open spec fn stake_refusal(pre: StakingLedgerView, caller: Seq<char>, amount: u128) -> Option<ContractError> {
    if pre.token is None {
        Some(ContractError::NoData {  })
    } else if amount_of(pre.balances, caller) + amount > u128::MAX || pre.total + amount > u128::MAX {
        Some(overflow())
    } else {
        None
    }
}

/// Why a stake is refused, if it is: by what the ledger holds, or because
/// the request to the token ledger could not be written.
pub open spec fn stake_error(
    pre: StakingLedgerView,
    caller: Seq<char>,
    amount: u128,
    request: Result<CosmosMsg, CommonError>,
) -> Option<ContractError> {
    match stake_refusal(pre, caller, amount) {
        Some(e) => Some(e),
        None => match request {
            Err(e) => Some(ContractError::Std(e)),
            Ok(_) => None,
        },
    }
}

/// The ledger after `caller` has staked `amount`.
pub open spec fn after_stake(pre: StakingLedgerView, caller: Seq<char>, amount: u128) -> StakingLedgerView {
    StakingLedgerView {
        balances: with_amount(pre.balances, caller, (amount_of(pre.balances, caller) + amount) as u128),
        total: (pre.total + amount) as u128,
        ..pre
    }
}

/// Adds `amount` to the caller's stake and to the total, and hands the
/// host `request`, the request to the token ledger to collect the tokens.
pub fn stake_with(
    state: &mut StakingLedger,
    info: MessageInfo,
    amount: u128,
    request: Result<CosmosMsg, CommonError>,
) -> (r: Result<Response, ContractError>)
    requires
        old(state).wf(),
    ensures
        final(state).wf(),
        match stake_error(old(state)@, info.sender@, amount, request) {
            Some(e) => r == Err::<Response, ContractError>(e) && final(state)@ == old(state)@,
            None => sends(r, request->Ok_0) && final(state)@ == after_stake(
                old(state)@,
                info.sender@,
                amount,
            ),
        },
{
    if state.config().is_none() {
        return Err(ContractError::NoData {  });
    }
    if checked_add(state.balances().balance(&info.sender), amount).is_err() {
        return Err(ContractError::Std(CommonError::Overflow { operation: OverflowOperation::Add }));
    }
    if checked_add(state.total(), amount).is_err() {
        return Err(ContractError::Std(CommonError::Overflow { operation: OverflowOperation::Add }));
    }
    let msg = match request {
        Ok(msg) => msg,
        Err(e) => {
            return Err(ContractError::Std(e));
        },
    };
    state.add_stake(&info.sender, amount);
    Ok(Response::new().add_submessage(SubMsg::new(msg)))
}

/// Adds `amount` to the caller's stake and to the total, and asks the
/// token ledger to move `amount` from the caller to this ledger, on the
/// allowance that the caller has given it.
pub fn stake(state: &mut StakingLedger, env: Env, info: MessageInfo, amount: u128) -> (r: Result<
    Response,
    ContractError,
>)
    requires
        old(state).wf(),
    ensures
        final(state).wf(),
        match stake_refusal(old(state)@, info.sender@, amount) {
            Some(e) => r == Err::<Response, ContractError>(e) && final(state)@ == old(state)@,
            None => match cw20_execute_json(
                Cw20Request::TransferFrom {
                    owner: info.sender@,
                    recipient: env.contract.address@,
                    amount,
                },
            ) {
                None => r == Err::<Response, ContractError>(
                    ContractError::Std(CommonError::SerializeErr {  }),
                ) && final(state)@ == old(state)@,
                Some(text) => requests(r, old(state)@.token->0, text) && final(state)@ == after_stake(
                    old(state)@,
                    info.sender@,
                    amount,
                ),
            },
        },
{
    let request = match state.config() {
        Some(config) => Config { addr: config.addr.clone() }.new_transfer_from_msg(
            &info.sender,
            &env.contract.address,
            amount,
        ),
        None => {
            return Err(ContractError::NoData {  });
        },
    };
    stake_with(state, info, amount, request)
}

/// Carries out the operation `msg` for the caller.
pub fn execute(state: &mut StakingLedger, env: Env, info: MessageInfo, msg: ExecuteMsg) -> (r: Result<
    Response,
    ContractError,
>)
    requires
        old(state).wf(),
    ensures
        final(state).wf(),
        r is Err ==> final(state)@ == old(state)@,
        match msg {
            ExecuteMsg::UpdateAdmin { admin } => match update_admin_error(old(state)@, info.sender@) {
                Some(e) => r == Err::<Response, ContractError>(e),
                None => quiet_ok(r) && final(state)@ == (StakingLedgerView {
                    admin: name_of(admin),
                    ..old(state)@
                }),
            },
            ExecuteMsg::Stake { amount } => match stake_refusal(old(state)@, info.sender@, amount) {
                Some(e) => r == Err::<Response, ContractError>(e),
                None => match cw20_execute_json(
                    Cw20Request::TransferFrom {
                        owner: info.sender@,
                        recipient: env.contract.address@,
                        amount,
                    },
                ) {
                    None => r == Err::<Response, ContractError>(
                        ContractError::Std(CommonError::SerializeErr {  }),
                    ),
                    Some(text) => requests(r, old(state)@.token->0, text) && final(state)@
                        == after_stake(old(state)@, info.sender@, amount),
                },
            },
            ExecuteMsg::Withdraw { amount } => match withdraw_refusal(old(state)@, info.sender@, amount) {
                Some(e) => r == Err::<Response, ContractError>(e),
                None => match cw20_execute_json(
                    Cw20Request::Transfer { recipient: info.sender@, amount },
                ) {
                    None => r == Err::<Response, ContractError>(
                        ContractError::Std(CommonError::SerializeErr {  }),
                    ),
                    Some(text) => requests(r, old(state)@.token->0, text) && final(state)@
                        == after_withdraw(old(state)@, info.sender@, amount),
                },
            },
            ExecuteMsg::Mint { amount } => final(state)@ == old(state)@ && match old(state)@.token {
                None => r == Err::<Response, ContractError>(ContractError::Unauthorized {  }),
                Some(token) => match cw20_execute_json(
                    Cw20Request::Mint { recipient: info.sender@, amount },
                ) {
                    None => r == Err::<Response, ContractError>(
                        ContractError::Std(CommonError::SerializeErr {  }),
                    ),
                    Some(text) => requests(r, token, text),
                },
            },
        },
{
    match msg {
        ExecuteMsg::UpdateAdmin { admin } => execute_update_admin(state, info, admin),
        ExecuteMsg::Stake { amount } => stake(state, env, info, amount),
        ExecuteMsg::Withdraw { amount } => withdraw(state, env, info, amount),
        ExecuteMsg::Mint { amount } => mint(state, env, info, amount),
    }
}

/// What all accounts together have staked.
pub fn query_total_stake(state: &StakingLedger) -> (r: Result<TotalStakeResponse, CommonError>)
    ensures
        match state@.token {
            Some(_) => r == Ok::<TotalStakeResponse, CommonError>(
                TotalStakeResponse { stake: state@.total },
            ),
            None => r matches Err(CommonError::NotFound {  }),
        },
{
    if state.config().is_none() {
        return Err(CommonError::NotFound {  });
    }
    Ok(TotalStakeResponse { stake: state.total() })
}

/// What the account `addr` has staked; zero where it has staked nothing.
pub fn query_staked(state: &StakingLedger, addr: String) -> (r: Result<StakedResponse, CommonError>)
    requires
        state.wf(),
    ensures
        r == Ok::<StakedResponse, CommonError>(
            StakedResponse { stake: amount_of(state@.balances, addr@) },
        ),
{
    let balance = state.balances().balance(&addr);
    Ok(StakedResponse { stake: balance })
}

/// The admin, if there is one.
pub fn query_admin(state: &StakingLedger) -> (r: Result<AdminResponse, CommonError>)
    ensures
        match state@.token {
            Some(_) => r matches Ok(res) && name_of(res.admin) == state@.admin,
            None => r matches Err(CommonError::NotFound {  }),
        },
{
    if state.config().is_none() {
        return Err(CommonError::NotFound {  });
    }
    let admin = match state.admin() {
        Some(a) => Some(a.clone()),
        None => None,
    };
    Ok(AdminResponse { admin })
}

/// Answers the query `msg` from what the ledger holds; the ledger does
/// not change.
pub fn query(state: &StakingLedger, _env: Env, msg: QueryMsg) -> (r: Result<QueryResponse, CommonError>)
    requires
        state.wf(),
    ensures
        match msg {
            QueryMsg::TotalStaked {  } => match state@.token {
                Some(_) => r matches Ok(QueryResponse::TotalStaked(res)) && res.stake == state@.total,
                None => r matches Err(CommonError::NotFound {  }),
            },
            QueryMsg::Staked { address } => r matches Ok(QueryResponse::Staked(res)) && res.stake
                == amount_of(state@.balances, address@),
            QueryMsg::Admin {  } => match state@.token {
                Some(_) => r matches Ok(QueryResponse::Admin(res)) && name_of(res.admin) == state@.admin,
                None => r matches Err(CommonError::NotFound {  }),
            },
        },
{
    match msg {
        QueryMsg::TotalStaked {  } => match query_total_stake(state) {
            Ok(res) => Ok(QueryResponse::TotalStaked(res)),
            Err(e) => Err(e),
        },
        QueryMsg::Staked { address } => match query_staked(state, address) {
            Ok(res) => Ok(QueryResponse::Staked(res)),
            Err(e) => Err(e),
        },
        QueryMsg::Admin {  } => match query_admin(state) {
            Ok(res) => Ok(QueryResponse::Admin(res)),
            Err(e) => Err(e),
        },
    }
}

} // verus!
