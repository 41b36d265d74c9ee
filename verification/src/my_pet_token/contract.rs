//! The operations of the token ledger. An operation that fails leaves the
//! ledger as it was.

use vstd::prelude::*;
use crate::accounts::{
    accounts_behind, cursor_of, has_duplicates, lemma_seeded_total, names, seed_total, seeded, Accounts,
};
use crate::bindings::{
    checked_add, checked_sub, cw20_receive_json, cw20_receive_to_json, semver_precedes,
    version_precedes,
};
use crate::chain::{
    CommonError, CosmosMsg, Env, MessageInfo, OverflowOperation, Response, SubMsg, Timestamp, WasmMsg,
};
use crate::interface::{AllowanceResponse, BalanceResponse, Cw20Coin, TokenInfoResponse};
use crate::my_pet_token::allowances::{
    after_decrease, after_increase, after_transfer_from, allowance_in_force, decrease_error,
    execute_decrease_allowance, execute_increase_allowance, execute_transfer_from, increase_error,
    query_allowance, transfer_from_error,
};
use crate::my_pet_token::enumerable::{
    owners, page_limit, partners_behind, query_all_accounts, query_owner_allowances,
    query_spender_allowances, spenders,
};
use crate::my_pet_token::error::{insufficient, overflow, ContractError};
use crate::my_pet_token::msg::{ExecuteMsg, InstantiateMsg, MigrateMsg, QueryMsg, QueryResponse};
use crate::my_pet_token::state::{
    backfilled, moved, window_at, PetStakingData, TokenInfo, TokenInfoView, TokenLedger,
    TokenLedgerView, MINT_CAP, WINDOW_NANOS,
};
use crate::sorted_map::{is_page, SortedMap};
use crate::sums::{amount_of, lemma_sum_bounds, lemma_sum_bounds_two, with_amount};

verus! {

/// The operation succeeded and sends no message.
pub open spec fn quiet_ok(r: Result<Response, ContractError>) -> bool {
    r matches Ok(res) && res.messages@.len() == 0
}

/// Why a mint is refused, if it is: the caller is not the minter, the total
/// supply would leave its range, or the window does not allow the amount.
pub open spec fn mint_error(pre: TokenLedgerView, now: Timestamp, caller: Seq<char>, amount: u128) -> Option<
    ContractError,
> {
    if pre.token_info is None || pre.token_info->0.mint != caller {
        Some(ContractError::Unauthorized {  })
    } else if pre.supply() + amount > u128::MAX {
        Some(overflow())
    } else if amount > window_at(pre.pet_staking_data, now).amount {
        Some(ContractError::TokenLimitReached {  })
    } else {
        None
    }
}

/// The ledger after a mint of `amount` to `recipient` at the time `now`.
pub open spec fn after_mint(pre: TokenLedgerView, now: Timestamp, recipient: Seq<char>, amount: u128) -> TokenLedgerView {
    let window = window_at(pre.pet_staking_data, now);
    TokenLedgerView {
        token_info: Some(
            TokenInfoView { total_supply: (pre.supply() + amount) as u128, ..pre.token_info->0 },
        ),
        balances: with_amount(
            pre.balances,
            recipient,
            (amount_of(pre.balances, recipient) + amount) as u128,
        ),
        pet_staking_data: Some(
            PetStakingData { start_time: window.start_time, amount: (window.amount - amount) as u128 },
        ),
        ..pre
    }
}

/// A mint of just what the window still allows is not refused, and leaves
/// nothing in the window.
pub proof fn lemma_mint_of_what_is_left(pre: TokenLedgerView, now: Timestamp, caller: Seq<char>, recipient: Seq<char>)
    requires
        is_minter(pre, caller),
        pre.supply() + window_at(pre.pet_staking_data, now).amount <= u128::MAX,
    ensures
        mint_error(pre, now, caller, window_at(pre.pet_staking_data, now).amount) is None,
        after_mint(
            pre,
            now,
            recipient,
            window_at(pre.pet_staking_data, now).amount,
        ).pet_staking_data == Some(
            PetStakingData { start_time: window_at(pre.pet_staking_data, now).start_time, amount: 0 },
        ),
{
}

/// A mint of one unit more than the window still allows is refused on
/// account of the window.
pub proof fn lemma_mint_of_one_too_many(pre: TokenLedgerView, now: Timestamp, caller: Seq<char>)
    requires
        is_minter(pre, caller),
        pre.supply() + window_at(pre.pet_staking_data, now).amount + 1 <= u128::MAX,
    ensures
        mint_error(pre, now, caller, (window_at(pre.pet_staking_data, now).amount + 1) as u128) == Some(
            ContractError::TokenLimitReached {  },
        ),
{
}

/// Once 24 hours have passed since a window began, a mint is counted
/// against a fresh window with the full cap, whatever the old one had
/// left; so is a mint at a time before the window began.
pub proof fn lemma_mint_window_lapses(window: PetStakingData, now: Timestamp)
    requires
        now.nanos >= window.start_time.nanos + WINDOW_NANOS || now.nanos < window.start_time.nanos,
    ensures
        window_at(Some(window), now) == (PetStakingData { start_time: now, amount: MINT_CAP }),
{
}

/// Creates `amount` new tokens in the account of `recipient`, if the caller
/// is the minter and the mint window allows it.
pub fn execute_mint(
    state: &mut TokenLedger,
    env: Env,
    info: MessageInfo,
    recipient: String,
    amount: u128,
) -> (r: Result<Response, ContractError>)
    requires
        old(state).wf(),
    ensures
        final(state).wf(),
        match mint_error(old(state)@, env.block.time, info.sender@, amount) {
            Some(e) => r == Err::<Response, ContractError>(e) && final(state)@ == old(state)@,
            None => quiet_ok(r) && final(state)@ == after_mint(
                old(state)@,
                env.block.time,
                recipient@,
                amount,
            ),
        },
{
    let supply = match state.token_info() {
        Some(config) => {
            if config.mint != info.sender {
                return Err(ContractError::Unauthorized {  });
            }
            config.total_supply
        },
        None => {
            return Err(ContractError::Unauthorized {  });
        },
    };
    let mut pet_staking_data = match state.pet_staking_data() {
        Some(d) => {
            if d.is_valid(&env.block.time) {
                d
            } else {
                PetStakingData::new(&env.block.time)
            }
        },
        None => PetStakingData::new(&env.block.time),
    };
    if checked_add(supply, amount).is_err() {
        return Err(ContractError::Std(CommonError::Overflow { operation: OverflowOperation::Add }));
    }
    if pet_staking_data.update_amount(&amount).is_err() {
        return Err(ContractError::TokenLimitReached {  });
    }
    proof {
        state.lemma_inv();
        lemma_sum_bounds(state@.balances, recipient@);
    }
    if checked_add(state.balances().balance(&recipient), amount).is_err() {
        return Err(ContractError::Std(CommonError::Overflow { operation: OverflowOperation::Add }));
    }
    state.issue(&recipient, amount);
    state.set_window(pet_staking_data);
    Ok(Response::new())
}

/// Refuses a list of initial balances in which an account occurs twice.
pub fn validate_accounts(accounts: &[Cw20Coin]) -> (r: Result<(), ContractError>)
    ensures
        has_duplicates(accounts@) ==> r == Err::<(), ContractError>(
            ContractError::DuplicateInitialBalanceAddresses {  },
        ),
        !has_duplicates(accounts@) ==> r is Ok,
{
    let mut seen: SortedMap<String, bool> = SortedMap::new();
    let mut i: usize = 0;
    while i < accounts.len()
        invariant
            i <= accounts@.len(),
            seen.wf(),
            forall|j: int| 0 <= j < i ==> seen@.contains_key((#[trigger] accounts@[j]).address@),
            forall|k: Seq<char>|
                seen@.contains_key(k) ==> exists|j: int|
                    0 <= j < i && (#[trigger] accounts@[j]).address@ == k,
            forall|a: int, b: int|
                0 <= a < b < i ==> (#[trigger] accounts@[a]).address@ != (#[trigger] accounts@[b]).address@,
        decreases accounts@.len() - i,
    {
        if seen.get(&accounts[i].address).is_some() {
            proof {
                let k = accounts@[i as int].address@;
                let j = choose|j: int| 0 <= j < i && (#[trigger] accounts@[j]).address@ == k;
                assert(accounts@[j].address@ == accounts@[i as int].address@);
            }
            return Err(ContractError::DuplicateInitialBalanceAddresses {  });
        }
        seen.insert(accounts[i].address.clone(), true);
        i += 1;
    }
    Ok(())
}

/// Gives each account of the list its amount and returns the sum of the
/// amounts. It is refused where an account occurs twice, or where the sum
/// leaves the range of an amount.
pub fn create_accounts(balances: &mut Accounts, accounts: &[Cw20Coin]) -> (r: Result<u128, ContractError>)
    requires
        old(balances).wf(),
    ensures
        final(balances).wf(),
        has_duplicates(accounts@) ==> r == Err::<u128, ContractError>(
            ContractError::DuplicateInitialBalanceAddresses {  },
        ) && final(balances)@ == old(balances)@,
        !has_duplicates(accounts@) && seed_total(accounts@) > u128::MAX ==> r == Err::<u128, ContractError>(
            overflow(),
        ) && final(balances)@ == old(balances)@,
        !has_duplicates(accounts@) && seed_total(accounts@) <= u128::MAX ==> r == Ok::<
            u128,
            ContractError,
        >(seed_total(accounts@) as u128) && final(balances)@ == seeded(old(balances)@, accounts@),
{
    if validate_accounts(accounts).is_err() {
        return Err(ContractError::DuplicateInitialBalanceAddresses {  });
    }
    let mut total_supply: u128 = 0;
    let mut i: usize = 0;
    while i < accounts.len()
        invariant
            i <= accounts@.len(),
            total_supply == seed_total(accounts@.take(i as int)),
            seed_total(accounts@.take(i as int)) <= seed_total(accounts@),
            !has_duplicates(accounts@),
            balances.wf(),
            balances@ == old(balances)@,
        decreases accounts@.len() - i,
    {
        proof {
            assert(accounts@.take(i + 1).drop_last() =~= accounts@.take(i as int));
            lemma_seed_total_grows(accounts@, i + 1);
        }
        match checked_add(total_supply, accounts[i].amount) {
            Ok(sum) => {
                total_supply = sum;
            },
            Err(_) => {
                return Err(
                    ContractError::Std(CommonError::Overflow { operation: OverflowOperation::Add }),
                );
            },
        }
        i += 1;
    }
    proof {
        assert(accounts@.take(accounts@.len() as int) =~= accounts@);
    }
    let mut i: usize = 0;
    while i < accounts.len()
        invariant
            i <= accounts@.len(),
            balances.wf(),
            balances@ == seeded(old(balances)@, accounts@.take(i as int)),
        decreases accounts@.len() - i,
    {
        proof {
            assert(accounts@.take(i + 1).drop_last() =~= accounts@.take(i as int));
        }
        balances.set(&accounts[i].address, accounts[i].amount);
        i += 1;
    }
    proof {
        assert(accounts@.take(accounts@.len() as int) =~= accounts@);
    }
    Ok(total_supply)
}

/// The sum of a front part of the list does not exceed the sum of the
/// whole.
proof fn lemma_seed_total_grows(accounts: Seq<Cw20Coin>, n: int)
    requires
        0 <= n <= accounts.len(),
    ensures
        seed_total(accounts.take(n)) <= seed_total(accounts),
    decreases accounts.len() - n,
{
    if n < accounts.len() {
        assert(accounts.take(n + 1).drop_last() =~= accounts.take(n));
        lemma_seed_total_grows(accounts, n + 1);
    } else {
        assert(accounts.take(n) =~= accounts);
    }
}

/// The ledger as `msg` sets it up.
pub open spec fn instantiated(msg: InstantiateMsg) -> TokenLedgerView {
    TokenLedgerView {
        token_info: Some(
            TokenInfoView {
                name: msg.name@,
                symbol: msg.symbol@,
                decimals: msg.decimals,
                total_supply: seed_total(msg.initial_balances@) as u128,
                mint: msg.mint@,
            },
        ),
        balances: seeded(Map::empty(), msg.initial_balances@),
        ..TokenLedgerView::empty()
    }
}

/// Sets the ledger up with a token record and initial balances, in place
/// of whatever it held. It is refused where name, symbol or decimals are
/// not as they must be, where an account occurs twice among the initial
/// balances, or where their sum leaves the range of an amount.
pub fn instantiate(state: &mut TokenLedger, _env: Env, _info: MessageInfo, msg: InstantiateMsg) -> (r: Result<
    Response,
    ContractError,
>)
    requires
        old(state).wf(),
    ensures
        final(state).wf(),
        r is Err ==> final(state)@ == old(state)@,
        msg.complaint() matches Some(text) ==> r matches Err(
            ContractError::Std(CommonError::GenericErr { msg: m }),
        ) && m@ == text,
        msg.complaint() is None && has_duplicates(msg.initial_balances@) ==> r == Err::<
            Response,
            ContractError,
        >(ContractError::DuplicateInitialBalanceAddresses {  }),
        msg.complaint() is None && !has_duplicates(msg.initial_balances@) && seed_total(
            msg.initial_balances@,
        ) > u128::MAX ==> r == Err::<Response, ContractError>(overflow()),
        msg.complaint() is None && !has_duplicates(msg.initial_balances@) && seed_total(
            msg.initial_balances@,
        ) <= u128::MAX ==> quiet_ok(r) && final(state)@ == instantiated(msg) && final(state)@.mirrored(),
{
    match msg.validate() {
        Err(e) => {
            return Err(ContractError::Std(e));
        },
        Ok(()) => {},
    }
    let mut balances = Accounts::new();
    let total_supply = match create_accounts(&mut balances, msg.initial_balances.as_slice()) {
        Err(e) => {
            return Err(e);
        },
        Ok(total) => total,
    };
    proof {
        lemma_seeded_total(msg.initial_balances@);
    }
    let data = TokenInfo {
        name: msg.name,
        symbol: msg.symbol,
        decimals: msg.decimals,
        total_supply,
        mint: msg.mint,
    };
    state.reset(data, balances);
    Ok(Response::new())
}

/// What `to` holds once `amount` has gone to it from `from`. The addition
/// is a checked one and its error is handed on; in a ledger, whose balances
/// add up to a total supply that is in range, it cannot fail.
pub(crate) fn credited(state: &TokenLedger, from: &String, to: &String, amount: u128) -> (r: Result<
    u128,
    ContractError,
>)
    requires
        state.wf(),
        amount <= amount_of(state@.balances, from@),
    ensures
        r == Ok::<u128, ContractError>(amount_of(moved(state@.balances, from@, to@, amount), to@)),
{
    let held = if *from == *to {
        state.balances().balance(to) - amount
    } else {
        state.balances().balance(to)
    };
    proof {
        state.lemma_inv();
        lemma_sum_bounds(state@.balances, to@);
        if from@ != to@ {
            lemma_sum_bounds_two(state@.balances, from@, to@);
        }
    }
    match checked_add(held, amount) {
        Ok(sum) => Ok(sum),
        Err(_) => Err(ContractError::Std(CommonError::Overflow { operation: OverflowOperation::Add })),
    }
}

/// The ledger after `amount` has gone from `from` to `to`.
pub open spec fn after_transfer(pre: TokenLedgerView, from: Seq<char>, to: Seq<char>, amount: u128) -> TokenLedgerView {
    TokenLedgerView { balances: moved(pre.balances, from, to, amount), ..pre }
}

/// A transfer of nothing is not refused and leaves every balance, and so
/// the ledger, as it was.
pub proof fn lemma_transfer_of_nothing(pre: TokenLedgerView, from: Seq<char>, to: Seq<char>)
    requires
        pre.inv(),
    ensures
        0 <= amount_of(pre.balances, from),
        after_transfer(pre, from, to, 0) == pre,
{
    assert(moved(pre.balances, from, to, 0) =~= pre.balances);
}

/// A transfer to the sender's own account leaves the ledger as it was.
pub proof fn lemma_transfer_to_self(pre: TokenLedgerView, from: Seq<char>, amount: u128)
    requires
        pre.inv(),
        amount <= amount_of(pre.balances, from),
    ensures
        after_transfer(pre, from, from, amount) == pre,
{
    assert(moved(pre.balances, from, from, amount) =~= pre.balances);
}

/// A transfer between two accounts takes from the one what it gives to the
/// other, and leaves every third account as it was.
pub proof fn lemma_transfer_moves(pre: TokenLedgerView, from: Seq<char>, to: Seq<char>, amount: u128, other: Seq<char>)
    requires
        from != to,
        other != from,
        other != to,
        amount <= amount_of(pre.balances, from),
        amount_of(pre.balances, to) + amount <= u128::MAX,
    ensures
        amount_of(after_transfer(pre, from, to, amount).balances, from) == amount_of(pre.balances, from)
            - amount,
        amount_of(after_transfer(pre, from, to, amount).balances, to) == amount_of(pre.balances, to)
            + amount,
        amount_of(after_transfer(pre, from, to, amount).balances, other) == amount_of(pre.balances, other),
{
}

/// Moves `amount` from the caller's account to that of `recipient`. It is
/// refused where the caller holds less than `amount`.
pub fn execute_transfer(
    state: &mut TokenLedger,
    _env: Env,
    info: MessageInfo,
    recipient: String,
    amount: u128,
) -> (r: Result<Response, ContractError>)
    requires
        old(state).wf(),
    ensures
        final(state).wf(),
        amount > amount_of(old(state)@.balances, info.sender@) ==> r == Err::<Response, ContractError>(
            insufficient(),
        ) && final(state)@ == old(state)@,
        amount <= amount_of(old(state)@.balances, info.sender@) ==> quiet_ok(r) && final(state)@
            == after_transfer(
            old(state)@,
            info.sender@,
            recipient@,
            amount,
        ),
{
    if checked_sub(state.balances().balance(&info.sender), amount).is_err() {
        return Err(ContractError::Std(CommonError::Overflow { operation: OverflowOperation::Sub }));
    }
    match credited(state, &info.sender, &recipient, amount) {
        Ok(_) => {},
        Err(e) => {
            return Err(e);
        },
    }
    state.move_amount(&info.sender, &recipient, amount);
    Ok(Response::new())
}

/// Why a send is refused, if it is: the caller holds less than `amount`,
/// or the notice to the receiving contract could not be written.
pub open spec fn send_error(pre: TokenLedgerView, caller: Seq<char>, amount: u128, notice: Result<
    Vec<u8>,
    CommonError,
>) -> Option<ContractError> {
    if amount > amount_of(pre.balances, caller) {
        Some(insufficient())
    } else {
        match notice {
            Err(e) => Some(ContractError::Std(e)),
            Ok(_) => None,
        }
    }
}

/// Moves `amount` from the caller's account to that of `contract` and
/// hands `contract` the notice `notice` of it, as the one message of the
/// response.
pub fn execute_send_with(
    state: &mut TokenLedger,
    info: MessageInfo,
    contract: String,
    amount: u128,
    notice: Result<Vec<u8>, CommonError>,
) -> (r: Result<Response, ContractError>)
    requires
        old(state).wf(),
    ensures
        final(state).wf(),
        match send_error(old(state)@, info.sender@, amount, notice) {
            Some(e) => r == Err::<Response, ContractError>(e) && final(state)@ == old(state)@,
            None => r matches Ok(res) && res.messages@.len() == 1 && res.messages@[0].is_request(
                contract@,
                notice->Ok_0@,
            ) && final(state)@ == after_transfer(old(state)@, info.sender@, contract@, amount),
        },
{
    if checked_sub(state.balances().balance(&info.sender), amount).is_err() {
        return Err(ContractError::Std(CommonError::Overflow { operation: OverflowOperation::Sub }));
    }
    match credited(state, &info.sender, &contract, amount) {
        Ok(_) => {},
        Err(e) => {
            return Err(e);
        },
    }
    let msg = match notice {
        Ok(msg) => msg,
        Err(e) => {
            return Err(ContractError::Std(e));
        },
    };
    state.move_amount(&info.sender, &contract, amount);
    let execute = WasmMsg::Execute { contract_addr: contract, msg, funds: Vec::new() };
    Ok(Response::new().add_submessage(SubMsg::new(CosmosMsg::Wasm(execute))))
}

/// Moves `amount` from the caller's account to that of `contract` and
/// notifies `contract` of it, with `msg` attached to the notice.
pub fn execute_send(
    state: &mut TokenLedger,
    _env: Env,
    info: MessageInfo,
    contract: String,
    amount: u128,
    msg: Vec<u8>,
) -> (r: Result<Response, ContractError>)
    requires
        old(state).wf(),
    ensures
        final(state).wf(),
        amount > amount_of(old(state)@.balances, info.sender@) ==> r == Err::<Response, ContractError>(
            insufficient(),
        ) && final(state)@ == old(state)@,
        amount <= amount_of(old(state)@.balances, info.sender@) ==> match cw20_receive_json(
            info.sender@,
            amount,
            msg@,
        ) {
            None => r == Err::<Response, ContractError>(
                ContractError::Std(CommonError::SerializeErr {  }),
            ) && final(state)@ == old(state)@,
            Some(text) => r matches Ok(res) && res.messages@.len() == 1 && res.messages@[0].is_request(
                contract@,
                text,
            ) && final(state)@ == after_transfer(old(state)@, info.sender@, contract@, amount),
        },
{
    let notice = match cw20_receive_to_json(&info.sender, amount, &msg) {
        Ok(text) => Ok(text),
        Err(_) => Err(CommonError::SerializeErr {  }),
    };
    execute_send_with(state, info, contract, amount, notice)
}

/// Why a burn is refused, if it is: the caller holds less than `amount`, or
/// the ledger has no token record.
pub open spec fn burn_error(pre: TokenLedgerView, caller: Seq<char>, amount: u128) -> Option<ContractError> {
    if amount > amount_of(pre.balances, caller) {
        Some(insufficient())
    } else if pre.token_info is None {
        Some(ContractError::Std(CommonError::NotFound {  }))
    } else {
        None
    }
}

/// The ledger after `caller` has burnt `amount`.
pub open spec fn after_burn(pre: TokenLedgerView, caller: Seq<char>, amount: u128) -> TokenLedgerView {
    TokenLedgerView {
        token_info: Some(
            TokenInfoView { total_supply: (pre.supply() - amount) as u128, ..pre.token_info->0 },
        ),
        balances: with_amount(pre.balances, caller, (amount_of(pre.balances, caller) - amount) as u128),
        ..pre
    }
}

/// Destroys `amount` tokens of the caller: the caller's balance and the
/// total supply fall by `amount`.
pub fn execute_burn(state: &mut TokenLedger, _env: Env, info: MessageInfo, amount: u128) -> (r: Result<
    Response,
    ContractError,
>)
    requires
        old(state).wf(),
    ensures
        final(state).wf(),
        match burn_error(old(state)@, info.sender@, amount) {
            Some(e) => r == Err::<Response, ContractError>(e) && final(state)@ == old(state)@,
            None => quiet_ok(r) && final(state)@ == after_burn(
                old(state)@,
                info.sender@,
                amount,
            ),
        },
{
    if checked_sub(state.balances().balance(&info.sender), amount).is_err() {
        return Err(ContractError::Std(CommonError::Overflow { operation: OverflowOperation::Sub }));
    }
    let supply = match state.token_info() {
        Some(info) => info.total_supply,
        None => {
            return Err(ContractError::Std(CommonError::NotFound {  }));
        },
    };
    proof {
        state.lemma_inv();
        lemma_sum_bounds(state@.balances, info.sender@);
    }
    if checked_sub(supply, amount).is_err() {
        return Err(ContractError::Std(CommonError::Overflow { operation: OverflowOperation::Sub }));
    }
    state.destroy(&info.sender, amount);
    Ok(Response::new())
}

/// The caller is the minter of the ledger.
pub open spec fn is_minter(pre: TokenLedgerView, caller: Seq<char>) -> bool {
    pre.token_info matches Some(info) && info.mint == caller
}

/// Hands the minter's role to `new_minter`, if the caller is the minter.
pub fn execute_update_minter(state: &mut TokenLedger, _env: Env, info: MessageInfo, new_minter: String) -> (r:
    Result<Response, ContractError>)
    requires
        old(state).wf(),
    ensures
        final(state).wf(),
        !is_minter(old(state)@, info.sender@) ==> r == Err::<Response, ContractError>(
            ContractError::Unauthorized {  },
        ) && final(state)@ == old(state)@,
        is_minter(old(state)@, info.sender@) ==> quiet_ok(r) && final(state)@ == (TokenLedgerView {
            token_info: Some(TokenInfoView { mint: new_minter@, ..old(state)@.token_info->0 }),
            ..old(state)@
        }),
{
    match state.token_info() {
        Some(config) => {
            if config.mint != info.sender {
                return Err(ContractError::Unauthorized {  });
            }
        },
        None => {
            return Err(ContractError::Unauthorized {  });
        },
    }
    state.set_minter(new_minter);
    Ok(Response::new())
}

/// The balance of `address`; zero where the ledger holds none.
pub fn query_balance(state: &TokenLedger, address: String) -> (r: Result<BalanceResponse, CommonError>)
    requires
        state.wf(),
    ensures
        r matches Ok(res) && res.balance == amount_of(state@.balances, address@),
{
    let balance = state.balances().balance(&address);
    Ok(BalanceResponse { balance })
}

/// Name, symbol, decimals and total supply of the token.
pub fn query_token_info(state: &TokenLedger) -> (r: Result<TokenInfoResponse, CommonError>)
    ensures
        match state@.token_info {
            Some(info) => r matches Ok(res) && res.name@ == info.name && res.symbol@ == info.symbol
                && res.decimals == info.decimals && res.total_supply == info.total_supply,
            None => r matches Err(CommonError::NotFound {  }),
        },
{
    match state.token_info() {
        Some(info) => Ok(
            TokenInfoResponse {
                name: info.name.clone(),
                symbol: info.symbol.clone(),
                decimals: info.decimals,
                total_supply: info.total_supply,
            },
        ),
        None => Err(CommonError::NotFound {  }),
    }
}

/// The account that may mint.
pub fn query_minter(state: &TokenLedger) -> (r: Result<String, CommonError>)
    ensures
        match state@.token_info {
            Some(info) => r matches Ok(minter) && minter@ == info.mint,
            None => r matches Err(CommonError::NotFound {  }),
        },
{
    match state.token_info() {
        Some(info) => Ok(info.mint.clone()),
        None => Err(CommonError::NotFound {  }),
    }
}

/// The mint window, once there has been a mint.
pub fn query_pet_staking_data(state: &TokenLedger) -> (r: Result<PetStakingData, CommonError>)
    ensures
        match state@.pet_staking_data {
            Some(window) => r == Ok::<PetStakingData, CommonError>(window),
            None => r matches Err(CommonError::NotFound {  }),
        },
{
    match state.pet_staking_data() {
        Some(window) => Ok(window),
        None => Err(CommonError::NotFound {  }),
    }
}

/// Why the operation `msg` is refused, if it is.
pub open spec fn execute_error(pre: TokenLedgerView, env: Env, caller: Seq<char>, msg: ExecuteMsg) -> Option<
    ContractError,
> {
    match msg {
        ExecuteMsg::Transfer { recipient, amount } => if amount > amount_of(pre.balances, caller) {
            Some(insufficient())
        } else {
            None
        },
        ExecuteMsg::Mint { recipient, amount } => mint_error(pre, env.block.time, caller, amount),
        ExecuteMsg::IncreaseAllowance { spender, amount, expires } => increase_error(
            pre,
            env.block,
            caller,
            spender@,
            amount,
            expires,
        ),
        ExecuteMsg::DecreaseAllowance { spender, amount, expires } => decrease_error(
            pre,
            env.block,
            caller,
            spender@,
            amount,
            expires,
        ),
        ExecuteMsg::TransferFrom { owner, recipient, amount } => transfer_from_error(
            pre,
            env.block,
            caller,
            owner@,
            amount,
        ),
        ExecuteMsg::UpdateMinter { new_minter } => if is_minter(pre, caller) {
            None
        } else {
            Some(ContractError::Unauthorized {  })
        },
    }
}

/// The ledger after the operation `msg`.
pub open spec fn after_execute(pre: TokenLedgerView, env: Env, caller: Seq<char>, msg: ExecuteMsg) -> TokenLedgerView {
    match msg {
        ExecuteMsg::Transfer { recipient, amount } => after_transfer(pre, caller, recipient@, amount),
        ExecuteMsg::Mint { recipient, amount } => after_mint(pre, env.block.time, recipient@, amount),
        ExecuteMsg::IncreaseAllowance { spender, amount, expires } => after_increase(
            pre,
            caller,
            spender@,
            amount,
            expires,
        ),
        ExecuteMsg::DecreaseAllowance { spender, amount, expires } => after_decrease(
            pre,
            caller,
            spender@,
            amount,
            expires,
        ),
        ExecuteMsg::TransferFrom { owner, recipient, amount } => after_transfer_from(
            pre,
            caller,
            owner@,
            recipient@,
            amount,
        ),
        ExecuteMsg::UpdateMinter { new_minter } => TokenLedgerView {
            token_info: Some(TokenInfoView { mint: new_minter@, ..pre.token_info->0 }),
            ..pre
        },
    }
}

/// Carries out the operation `msg` for the caller. The ledger changes as
/// the operation says, or the operation is refused and the ledger stays
/// as it was.
pub fn execute(state: &mut TokenLedger, env: Env, info: MessageInfo, msg: ExecuteMsg) -> (r: Result<
    Response,
    ContractError,
>)
    requires
        old(state).wf(),
    ensures
        final(state).wf(),
        old(state)@.mirrored() ==> final(state)@.mirrored(),
        match execute_error(old(state)@, env, info.sender@, msg) {
            Some(e) => r == Err::<Response, ContractError>(e) && final(state)@ == old(state)@,
            None => quiet_ok(r) && final(state)@ == after_execute(old(state)@, env, info.sender@, msg),
        },
{
    match msg {
        ExecuteMsg::Transfer { recipient, amount } => execute_transfer(state, env, info, recipient, amount),
        ExecuteMsg::Mint { recipient, amount } => execute_mint(state, env, info, recipient, amount),
        ExecuteMsg::IncreaseAllowance { spender, amount, expires } => execute_increase_allowance(
            state,
            env,
            info,
            spender,
            amount,
            expires,
        ),
        ExecuteMsg::DecreaseAllowance { spender, amount, expires } => execute_decrease_allowance(
            state,
            env,
            info,
            spender,
            amount,
            expires,
        ),
        ExecuteMsg::TransferFrom { owner, recipient, amount } => execute_transfer_from(
            state,
            env,
            info,
            owner,
            recipient,
            amount,
        ),
        ExecuteMsg::UpdateMinter { new_minter } => execute_update_minter(state, env, info, new_minter),
    }
}

/// Answers the query `msg` from what the ledger holds; the ledger does
/// not change.
pub fn query(state: &TokenLedger, env: Env, msg: QueryMsg) -> (r: Result<QueryResponse, CommonError>)
    requires
        state.wf(),
    ensures
        match msg {
            QueryMsg::Balance { address } => r matches Ok(QueryResponse::Balance(res)) && res.balance
                == amount_of(state@.balances, address@),
            QueryMsg::TokenInfo {  } => match state@.token_info {
                Some(info) => r matches Ok(QueryResponse::TokenInfo(res)) && res.name@ == info.name
                    && res.symbol@ == info.symbol && res.decimals == info.decimals && res.total_supply
                    == info.total_supply,
                None => r matches Err(CommonError::NotFound {  }),
            },
            QueryMsg::Minter {  } => match state@.token_info {
                Some(info) => r matches Ok(QueryResponse::Minter(minter)) && minter@ == info.mint,
                None => r matches Err(CommonError::NotFound {  }),
            },
            QueryMsg::Allowance { owner, spender } => r matches Ok(QueryResponse::Allowance(res)) && res
                == allowance_in_force(state@, env.block, owner@, spender@),
            QueryMsg::AllAllowances { owner, start_after, limit } => r matches Ok(
                QueryResponse::AllAllowances(res),
            ) && is_page::<String>(
                spenders(res.allowances@),
                partners_behind(state@.allowances, owner@, cursor_of(start_after)),
                page_limit(limit),
            ) && forall|i: int|
                0 <= i < res.allowances@.len() ==> {
                    let a = #[trigger] res.allowances@[i];
                    state@.allowances[(owner@, a.spender@)] == (AllowanceResponse {
                        allowance: a.allowance,
                        expires: a.expires,
                    })
                },
            QueryMsg::AllSpenderAllowances { spender, start_after, limit } => r matches Ok(
                QueryResponse::AllSpenderAllowances(res),
            ) && is_page::<String>(
                owners(res.allowances@),
                partners_behind(state@.allowances_spender, spender@, cursor_of(start_after)),
                page_limit(limit),
            ) && forall|i: int|
                0 <= i < res.allowances@.len() ==> {
                    let a = #[trigger] res.allowances@[i];
                    state@.allowances_spender[(spender@, a.owner@)] == (AllowanceResponse {
                        allowance: a.allowance,
                        expires: a.expires,
                    })
                },
            QueryMsg::AllAccounts { start_after, limit } => r matches Ok(QueryResponse::AllAccounts(res))
                && is_page::<String>(
                names(res.accounts@),
                accounts_behind(state@.balances, cursor_of(start_after)),
                page_limit(limit),
            ),
            QueryMsg::PetStaking {  } => match state@.pet_staking_data {
                Some(window) => r matches Ok(QueryResponse::PetStaking(res)) && res == window,
                None => r matches Err(CommonError::NotFound {  }),
            },
        },
{
    match msg {
        QueryMsg::Balance { address } => match query_balance(state, address) {
            Ok(res) => Ok(QueryResponse::Balance(res)),
            Err(e) => Err(e),
        },
        QueryMsg::TokenInfo {  } => match query_token_info(state) {
            Ok(res) => Ok(QueryResponse::TokenInfo(res)),
            Err(e) => Err(e),
        },
        QueryMsg::Minter {  } => match query_minter(state) {
            Ok(res) => Ok(QueryResponse::Minter(res)),
            Err(e) => Err(e),
        },
        QueryMsg::Allowance { owner, spender } => match query_allowance(state, &env, owner, spender) {
            Ok(res) => Ok(QueryResponse::Allowance(res)),
            Err(e) => Err(e),
        },
        QueryMsg::AllAllowances { owner, start_after, limit } => match query_owner_allowances(
            state,
            owner,
            start_after,
            limit,
        ) {
            Ok(res) => Ok(QueryResponse::AllAllowances(res)),
            Err(e) => Err(e),
        },
        QueryMsg::AllSpenderAllowances { spender, start_after, limit } => match query_spender_allowances(
            state,
            spender,
            start_after,
            limit,
        ) {
            Ok(res) => Ok(QueryResponse::AllSpenderAllowances(res)),
            Err(e) => Err(e),
        },
        QueryMsg::AllAccounts { start_after, limit } => match query_all_accounts(state, start_after, limit) {
            Ok(res) => Ok(QueryResponse::AllAccounts(res)),
            Err(e) => Err(e),
        },
        QueryMsg::PetStaking {  } => match query_pet_staking_data(state) {
            Ok(res) => Ok(QueryResponse::PetStaking(res)),
            Err(e) => Err(e),
        },
    }
}

/// The first version whose ledgers keep the index of allowances by
/// spender.
pub const SPENDER_INDEX_VERSION: &'static str = "0.14.0";

/// Brings a ledger that was kept by an earlier version up to date, given
/// whether that version is older than the first one with an index of
/// allowances by spender: if so, the index is filled from the index by
/// owner. `None` says that the version could not be read.
pub fn migrate_with(state: &mut TokenLedger, older: Option<bool>) -> (r: Result<Response, ContractError>)
    requires
        old(state).wf(),
    ensures
        final(state).wf(),
        match older {
            Some(true) => quiet_ok(r) && final(state)@ == (TokenLedgerView {
                allowances_spender: backfilled(old(state)@.allowances, old(state)@.allowances_spender),
                ..old(state)@
            }),
            Some(false) => quiet_ok(r) && final(state)@ == old(state)@,
            None => r == Err::<Response, ContractError>(ContractError::Std(CommonError::ParseErr {  }))
                && final(state)@ == old(state)@,
        },
{
    match older {
        Some(true) => {
            state.backfill();
            Ok(Response::new())
        },
        Some(false) => Ok(Response::new()),
        None => Err(ContractError::Std(CommonError::ParseErr {  })),
    }
}

/// Brings a ledger that was kept by the version `original_version` up to
/// date: where that version is older than `SPENDER_INDEX_VERSION`, the
/// index of allowances by spender is filled from the index by owner.
pub fn migrate(state: &mut TokenLedger, _env: Env, original_version: &str, _msg: MigrateMsg) -> (r: Result<
    Response,
    ContractError,
>)
    requires
        old(state).wf(),
    ensures
        final(state).wf(),
        match semver_precedes(original_version@, SPENDER_INDEX_VERSION@) {
            Some(true) => quiet_ok(r) && final(state)@ == (TokenLedgerView {
                allowances_spender: backfilled(old(state)@.allowances, old(state)@.allowances_spender),
                ..old(state)@
            }),
            Some(false) => quiet_ok(r) && final(state)@ == old(state)@,
            None => r == Err::<Response, ContractError>(ContractError::Std(CommonError::ParseErr {  }))
                && final(state)@ == old(state)@,
        },
{
    let older = version_precedes(original_version, SPENDER_INDEX_VERSION);
    migrate_with(state, older)
}

} // verus!
