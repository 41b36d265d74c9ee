use pet_ledger::accounts::Accounts;
use pet_ledger::chain::{
    BlockInfo, CommonError, ContractInfo, CosmosMsg, Env, Expiration, MessageInfo,
    OverflowOperation, ReplyOn, Timestamp, WasmMsg,
};
use pet_ledger::interface::{AllowanceInfo, AllowanceResponse, Cw20Coin, SpenderAllowanceInfo};
use pet_ledger::my_pet_token::allowances::{
    execute_decrease_allowance, execute_increase_allowance, execute_transfer_from, query_allowance,
};
use pet_ledger::my_pet_token::contract::{
    create_accounts, execute, execute_burn, execute_mint, execute_send, execute_send_with,
    execute_transfer, execute_update_minter, instantiate, migrate, migrate_with, query,
    query_balance, query_minter, query_pet_staking_data, query_token_info, validate_accounts,
};
use pet_ledger::my_pet_token::enumerable::{
    query_all_accounts, query_owner_allowances, query_spender_allowances, DEFAULT_LIMIT, MAX_LIMIT,
};
use pet_ledger::my_pet_token::error::ContractError;
use pet_ledger::my_pet_token::msg::{
    ExecuteMsg, InstantiateMsg, MigrateMsg, QueryMsg, QueryResponse,
};
use pet_ledger::my_pet_token::state::{
    PetStakingData, TokenInfo, TokenLedger, MINT_CAP, WINDOW_NANOS,
};
use pet_ledger::my_pet_token::store::{export, restore, Stored};
use pet_ledger::order::PairKey;
use pet_ledger::sorted_map::Entry;

const START: u64 = 1_571_797_419_879_305_533;

fn env_at(height: u64, nanos: u64) -> Env {
    Env {
        block: BlockInfo { height, time: Timestamp { nanos } },
        contract: ContractInfo { address: "token".to_string() },
    }
}

fn env() -> Env {
    env_at(12_345, START)
}

fn by(sender: &str) -> MessageInfo {
    MessageInfo { sender: sender.to_string() }
}

fn coin(address: &str, amount: u128) -> Cw20Coin {
    Cw20Coin { address: address.to_string(), amount }
}

fn ledger_with(balances: Vec<Cw20Coin>) -> TokenLedger {
    let mut ledger = TokenLedger::new();
    let msg = InstantiateMsg {
        name: "Pet Token".to_string(),
        symbol: "PET".to_string(),
        decimals: 6,
        initial_balances: balances,
        mint: "minter".to_string(),
    };
    instantiate(&mut ledger, env(), by("creator"), msg).unwrap();
    ledger
}

fn balance(ledger: &TokenLedger, address: &str) -> u128 {
    query_balance(ledger, address.to_string()).unwrap().balance
}

fn supply(ledger: &TokenLedger) -> u128 {
    query_token_info(ledger).unwrap().total_supply
}

fn sum_of_balances(ledger: &TokenLedger) -> u128 {
    export(ledger).balances.iter().map(|c| c.amount).sum()
}

fn allowance(ledger: &TokenLedger, at: Env, owner: &str, spender: &str) -> AllowanceResponse {
    query_allowance(ledger, &at, owner.to_string(), spender.to_string()).unwrap()
}

fn overflow_of(operation: OverflowOperation) -> ContractError {
    ContractError::Std(CommonError::Overflow { operation })
}

#[test]
fn balances_add_up_to_the_supply_after_every_operation() {
    let mut ledger = ledger_with(vec![coin("ann", 500), coin("bob", 0), coin("cat", 70)]);
    assert_eq!(supply(&ledger), 570);
    assert_eq!(sum_of_balances(&ledger), 570);

    execute_transfer(&mut ledger, env(), by("ann"), "bob".to_string(), 120).unwrap();
    assert_eq!(sum_of_balances(&ledger), supply(&ledger));

    execute_mint(&mut ledger, env(), by("minter"), "dan".to_string(), 1_000).unwrap();
    assert_eq!(supply(&ledger), 1_570);
    assert_eq!(sum_of_balances(&ledger), 1_570);

    execute_burn(&mut ledger, env(), by("cat"), 70).unwrap();
    assert_eq!(supply(&ledger), 1_500);
    assert_eq!(sum_of_balances(&ledger), 1_500);

    execute_increase_allowance(&mut ledger, env(), by("ann"), "bob".to_string(), 50, None).unwrap();
    execute_transfer_from(&mut ledger, env(), by("bob"), "ann".to_string(), "cat".to_string(), 20)
        .unwrap();
    assert_eq!(sum_of_balances(&ledger), 1_500);
    assert_eq!(supply(&ledger), 1_500);

    // a refused operation changes nothing either
    execute_transfer(&mut ledger, env(), by("cat"), "ann".to_string(), 21).unwrap_err();
    assert_eq!(sum_of_balances(&ledger), 1_500);
    assert_eq!(balance(&ledger, "cat"), 20);
}

#[test]
fn transfer_of_nothing_changes_no_balance() {
    let mut ledger = ledger_with(vec![coin("ann", 500), coin("cat", 70)]);
    let before = export(&ledger).balances;
    execute_transfer(&mut ledger, env(), by("ann"), "cat".to_string(), 0).unwrap();
    execute_transfer(&mut ledger, env(), by("nobody"), "ann".to_string(), 0).unwrap();
    execute_transfer(&mut ledger, env(), by("ann"), "stranger".to_string(), 0).unwrap();
    assert_eq!(export(&ledger).balances, before);
    assert_eq!(balance(&ledger, "ann"), 500);
    assert_eq!(balance(&ledger, "cat"), 70);
    assert_eq!(balance(&ledger, "stranger"), 0);
}

#[test]
fn transfer_to_oneself_is_allowed_and_changes_nothing() {
    let mut ledger = ledger_with(vec![coin("ann", 500)]);
    execute_transfer(&mut ledger, env(), by("ann"), "ann".to_string(), 500).unwrap();
    assert_eq!(balance(&ledger, "ann"), 500);
    assert_eq!(supply(&ledger), 500);
    let err = execute_transfer(&mut ledger, env(), by("ann"), "ann".to_string(), 501).unwrap_err();
    assert_eq!(err, overflow_of(OverflowOperation::Sub));
}

#[test]
fn transfer_moves_exact_amounts() {
    let mut ledger = ledger_with(vec![coin("ann", 500), coin("cat", 70)]);
    execute_transfer(&mut ledger, env(), by("ann"), "cat".to_string(), 500).unwrap();
    assert_eq!(balance(&ledger, "ann"), 0);
    assert_eq!(balance(&ledger, "cat"), 570);
    // an account that holds nothing is not listed
    let accounts = query_all_accounts(&ledger, None, None).unwrap().accounts;
    assert_eq!(accounts, vec!["cat".to_string()]);
}

#[test]
fn increase_then_decrease_restores_the_allowance() {
    let mut ledger = ledger_with(vec![coin("ann", 500)]);

    // there was none: there is none again
    let before = export(&ledger);
    execute_increase_allowance(&mut ledger, env(), by("ann"), "bob".to_string(), 40, None).unwrap();
    assert_eq!(
        allowance(&ledger, env(), "ann", "bob"),
        AllowanceResponse { allowance: 40, expires: Expiration::Never {} }
    );
    execute_decrease_allowance(&mut ledger, env(), by("ann"), "bob".to_string(), 40, None).unwrap();
    let after = export(&ledger);
    assert_eq!(after.allowances.len(), 0);
    assert_eq!(after.allowances_spender.len(), 0);
    assert_eq!(after.balances, before.balances);

    // there was one: it is as it was
    let until = Expiration::AtHeight(20_000);
    execute_increase_allowance(&mut ledger, env(), by("ann"), "bob".to_string(), 7, Some(until))
        .unwrap();
    execute_increase_allowance(&mut ledger, env(), by("ann"), "bob".to_string(), 33, None).unwrap();
    assert_eq!(
        allowance(&ledger, env(), "ann", "bob"),
        AllowanceResponse { allowance: 40, expires: until }
    );
    execute_decrease_allowance(&mut ledger, env(), by("ann"), "bob".to_string(), 33, None).unwrap();
    assert_eq!(
        allowance(&ledger, env(), "ann", "bob"),
        AllowanceResponse { allowance: 7, expires: until }
    );
}

#[test]
fn increase_allowance_adds_and_replaces_the_expiration() {
    let mut ledger = ledger_with(vec![coin("ann", 500)]);
    let first = Expiration::AtHeight(20_000);
    let second = Expiration::AtTime(Timestamp { nanos: START + 5 });
    execute_increase_allowance(&mut ledger, env(), by("ann"), "bob".to_string(), 10, Some(first))
        .unwrap();
    execute_increase_allowance(&mut ledger, env(), by("ann"), "bob".to_string(), 5, Some(second))
        .unwrap();
    assert_eq!(
        allowance(&ledger, env(), "ann", "bob"),
        AllowanceResponse { allowance: 15, expires: second }
    );
    // both indices hold the same
    let by_owner = query_owner_allowances(&ledger, "ann".to_string(), None, None).unwrap();
    assert_eq!(
        by_owner.allowances,
        vec![AllowanceInfo { spender: "bob".to_string(), allowance: 15, expires: second }]
    );
    let by_spender = query_spender_allowances(&ledger, "bob".to_string(), None, None).unwrap();
    assert_eq!(
        by_spender.allowances,
        vec![SpenderAllowanceInfo { owner: "ann".to_string(), allowance: 15, expires: second }]
    );
}

#[test]
fn increase_allowance_refuses_an_expiration_already_reached() {
    let mut ledger = ledger_with(vec![coin("ann", 500)]);
    let at_height = Some(Expiration::AtHeight(12_345));
    let err = execute_increase_allowance(&mut ledger, env(), by("ann"), "bob".to_string(), 10, at_height)
        .unwrap_err();
    assert_eq!(err, ContractError::InvalidExpiration {});
    let at_time = Some(Expiration::AtTime(Timestamp { nanos: START }));
    let err = execute_increase_allowance(&mut ledger, env(), by("ann"), "bob".to_string(), 10, at_time)
        .unwrap_err();
    assert_eq!(err, ContractError::InvalidExpiration {});
    assert_eq!(export(&ledger).allowances.len(), 0);
    // one block, or one nanosecond, later is in order
    let next = Some(Expiration::AtHeight(12_346));
    execute_increase_allowance(&mut ledger, env(), by("ann"), "bob".to_string(), 10, next).unwrap();
    let soon = Some(Expiration::AtTime(Timestamp { nanos: START + 1 }));
    execute_increase_allowance(&mut ledger, env(), by("ann"), "bob".to_string(), 10, soon).unwrap();
}

#[test]
fn increase_allowance_refuses_an_overflow() {
    let mut ledger = ledger_with(vec![coin("ann", 500)]);
    execute_increase_allowance(&mut ledger, env(), by("ann"), "bob".to_string(), u128::MAX, None)
        .unwrap();
    let err = execute_increase_allowance(&mut ledger, env(), by("ann"), "bob".to_string(), 1, None)
        .unwrap_err();
    assert_eq!(err, overflow_of(OverflowOperation::Add));
    assert_eq!(allowance(&ledger, env(), "ann", "bob").allowance, u128::MAX);
}

#[test]
fn decrease_allowance_refuses_to_go_below_zero() {
    let mut ledger = ledger_with(vec![coin("ann", 500)]);
    let err = execute_decrease_allowance(&mut ledger, env(), by("ann"), "bob".to_string(), 1, None)
        .unwrap_err();
    assert_eq!(err, overflow_of(OverflowOperation::Sub));
    execute_increase_allowance(&mut ledger, env(), by("ann"), "bob".to_string(), 10, None).unwrap();
    let err = execute_decrease_allowance(&mut ledger, env(), by("ann"), "bob".to_string(), 11, None)
        .unwrap_err();
    assert_eq!(err, overflow_of(OverflowOperation::Sub));
    assert_eq!(allowance(&ledger, env(), "ann", "bob").allowance, 10);
    let gone = Some(Expiration::AtHeight(1));
    let err = execute_decrease_allowance(&mut ledger, env(), by("ann"), "bob".to_string(), 1, gone)
        .unwrap_err();
    assert_eq!(err, ContractError::InvalidExpiration {});
    assert_eq!(allowance(&ledger, env(), "ann", "bob").allowance, 10);
}

#[test]
fn decrease_allowance_to_zero_keeps_a_record_that_ends() {
    let mut ledger = ledger_with(vec![coin("ann", 500)]);
    let until = Expiration::AtHeight(20_000);
    execute_increase_allowance(&mut ledger, env(), by("ann"), "bob".to_string(), 10, Some(until))
        .unwrap();
    execute_decrease_allowance(&mut ledger, env(), by("ann"), "bob".to_string(), 10, None).unwrap();
    assert_eq!(
        export(&ledger).allowances,
        vec![Entry {
            key: PairKey { first: "ann".to_string(), second: "bob".to_string() },
            value: AllowanceResponse { allowance: 0, expires: until },
        }]
    );
    // with the expiration taken back the record goes
    let never = Some(Expiration::Never {});
    execute_decrease_allowance(&mut ledger, env(), by("ann"), "bob".to_string(), 0, never).unwrap();
    assert_eq!(export(&ledger).allowances.len(), 0);
    assert_eq!(export(&ledger).allowances_spender.len(), 0);
}

#[test]
fn transfer_from_needs_an_allowance_in_force() {
    let mut ledger = ledger_with(vec![coin("owner", 10_000)]);
    let err = execute_transfer_from(
        &mut ledger,
        env(),
        by("spender"),
        "owner".to_string(),
        "rcpt".to_string(),
        1,
    )
    .unwrap_err();
    assert_eq!(err, ContractError::NoAllowance {});

    let until = Expiration::AtHeight(123_456);
    execute_increase_allowance(&mut ledger, env(), by("owner"), "spender".to_string(), 7_777, Some(until))
        .unwrap();
    for height in [123_456u64, 123_457, 999_999] {
        let err = execute_transfer_from(
            &mut ledger,
            env_at(height, START),
            by("spender"),
            "owner".to_string(),
            "rcpt".to_string(),
            1,
        )
        .unwrap_err();
        assert_eq!(err, ContractError::Expired {});
    }
    // the record is still there, though it counts for nothing
    assert_eq!(
        query_owner_allowances(&ledger, "owner".to_string(), None, None).unwrap().allowances,
        vec![AllowanceInfo { spender: "spender".to_string(), allowance: 7_777, expires: until }]
    );
    assert_eq!(
        allowance(&ledger, env_at(123_456, START), "owner", "spender"),
        AllowanceResponse { allowance: 0, expires: Expiration::Never {} }
    );
    assert_eq!(
        allowance(&ledger, env_at(123_455, START), "owner", "spender"),
        AllowanceResponse { allowance: 7_777, expires: until }
    );
    assert_eq!(balance(&ledger, "owner"), 10_000);

    // one block earlier it is in force
    execute_transfer_from(
        &mut ledger,
        env_at(123_455, START),
        by("spender"),
        "owner".to_string(),
        "rcpt".to_string(),
        777,
    )
    .unwrap();
    assert_eq!(balance(&ledger, "owner"), 9_223);
    assert_eq!(balance(&ledger, "rcpt"), 777);
    assert_eq!(allowance(&ledger, env(), "owner", "spender").allowance, 7_000);
}

#[test]
fn transfer_from_changes_allowance_and_balances_together() {
    let mut ledger = ledger_with(vec![coin("owner", 100)]);
    execute_increase_allowance(&mut ledger, env(), by("owner"), "spender".to_string(), 500, None)
        .unwrap();
    // more than allowed
    let err = execute_transfer_from(
        &mut ledger,
        env(),
        by("spender"),
        "owner".to_string(),
        "rcpt".to_string(),
        501,
    )
    .unwrap_err();
    assert_eq!(err, overflow_of(OverflowOperation::Sub));
    // allowed, but more than the owner holds: the allowance stays as it was
    let err = execute_transfer_from(
        &mut ledger,
        env(),
        by("spender"),
        "owner".to_string(),
        "rcpt".to_string(),
        101,
    )
    .unwrap_err();
    assert_eq!(err, overflow_of(OverflowOperation::Sub));
    assert_eq!(allowance(&ledger, env(), "owner", "spender").allowance, 500);
    assert_eq!(balance(&ledger, "owner"), 100);
    assert_eq!(balance(&ledger, "rcpt"), 0);

    execute_transfer_from(
        &mut ledger,
        env(),
        by("spender"),
        "owner".to_string(),
        "rcpt".to_string(),
        100,
    )
    .unwrap();
    assert_eq!(allowance(&ledger, env(), "owner", "spender").allowance, 400);
    assert_eq!(balance(&ledger, "owner"), 0);
    assert_eq!(balance(&ledger, "rcpt"), 100);
}

#[test]
fn transfer_from_removes_an_allowance_used_up() {
    let mut ledger = ledger_with(vec![coin("owner", 100)]);
    let until = Some(Expiration::AtHeight(20_000));
    execute_increase_allowance(&mut ledger, env(), by("owner"), "spender".to_string(), 60, until)
        .unwrap();
    execute_transfer_from(
        &mut ledger,
        env(),
        by("spender"),
        "owner".to_string(),
        "rcpt".to_string(),
        60,
    )
    .unwrap();
    let stored = export(&ledger);
    assert_eq!(stored.allowances.len(), 0);
    assert_eq!(stored.allowances_spender.len(), 0);
    let err = execute_transfer_from(
        &mut ledger,
        env(),
        by("spender"),
        "owner".to_string(),
        "rcpt".to_string(),
        0,
    )
    .unwrap_err();
    assert_eq!(err, ContractError::NoAllowance {});
}

#[test]
fn allowance_ends_at_its_time() {
    let mut ledger = ledger_with(vec![coin("owner", 100)]);
    let until = Expiration::AtTime(Timestamp { nanos: START + 1_000 });
    execute_increase_allowance(&mut ledger, env(), by("owner"), "spender".to_string(), 60, Some(until))
        .unwrap();
    assert_eq!(allowance(&ledger, env_at(1, START + 999), "owner", "spender").allowance, 60);
    assert_eq!(allowance(&ledger, env_at(1, START + 1_000), "owner", "spender").allowance, 0);
    let err = execute_transfer_from(
        &mut ledger,
        env_at(99_999_999, START + 1_000),
        by("spender"),
        "owner".to_string(),
        "rcpt".to_string(),
        1,
    )
    .unwrap_err();
    assert_eq!(err, ContractError::Expired {});
    execute_transfer_from(
        &mut ledger,
        env_at(99_999_999, START + 999),
        by("spender"),
        "owner".to_string(),
        "rcpt".to_string(),
        1,
    )
    .unwrap();
}

#[test]
fn mint_of_what_the_window_has_left_empties_it() {
    let mut ledger = ledger_with(vec![coin("genesis", 1234)]);
    execute_mint(&mut ledger, env(), by("minter"), "lucky".to_string(), 1).unwrap();
    assert_eq!(
        query_pet_staking_data(&ledger).unwrap(),
        PetStakingData { start_time: Timestamp { nanos: START }, amount: 9_999_999 }
    );
    let later = env_at(12_400, START + 1_000);
    execute_mint(&mut ledger, later.clone(), by("minter"), "lucky".to_string(), 9_999_999).unwrap();
    assert_eq!(
        query_pet_staking_data(&ledger).unwrap(),
        PetStakingData { start_time: Timestamp { nanos: START }, amount: 0 }
    );
    assert_eq!(balance(&ledger, "lucky"), 10_000_000);
    assert_eq!(supply(&ledger), 10_001_234);
    let err = execute_mint(&mut ledger, later.clone(), by("minter"), "lucky".to_string(), 1).unwrap_err();
    assert_eq!(err, ContractError::TokenLimitReached {});
    // nothing is still allowed
    execute_mint(&mut ledger, later, by("minter"), "lucky".to_string(), 0).unwrap();
    assert_eq!(supply(&ledger), 10_001_234);
}

#[test]
fn mint_of_one_more_than_the_window_has_left_is_refused() {
    let mut ledger = ledger_with(vec![coin("genesis", 1234)]);
    let err = execute_mint(&mut ledger, env(), by("minter"), "lucky".to_string(), MINT_CAP + 1)
        .unwrap_err();
    assert_eq!(err, ContractError::TokenLimitReached {});
    assert!(query_pet_staking_data(&ledger).is_err());
    assert_eq!(supply(&ledger), 1234);
    assert_eq!(balance(&ledger, "lucky"), 0);
    execute_mint(&mut ledger, env(), by("minter"), "lucky".to_string(), 4_000_000).unwrap();
    let err = execute_mint(&mut ledger, env(), by("minter"), "lucky".to_string(), 6_000_001)
        .unwrap_err();
    assert_eq!(err, ContractError::TokenLimitReached {});
    assert_eq!(query_pet_staking_data(&ledger).unwrap().amount, 6_000_000);
    assert_eq!(supply(&ledger), 4_001_234);
}

#[test]
fn mint_window_lasts_twenty_four_hours() {
    assert_eq!(MINT_CAP, 10_000_000);
    assert_eq!(WINDOW_NANOS, 24 * 60 * 60 * 1_000_000_000);
    let mut ledger = ledger_with(vec![coin("genesis", 1234)]);
    execute_mint(&mut ledger, env(), by("minter"), "lucky".to_string(), MINT_CAP).unwrap();
    // the last nanosecond of the window
    let last = env_at(20_000, START + WINDOW_NANOS - 1);
    let err = execute_mint(&mut ledger, last, by("minter"), "lucky".to_string(), 1).unwrap_err();
    assert_eq!(err, ContractError::TokenLimitReached {});
    // 24 hours after the start a new window begins
    let next = env_at(20_001, START + WINDOW_NANOS);
    execute_mint(&mut ledger, next, by("minter"), "lucky".to_string(), 3).unwrap();
    assert_eq!(
        query_pet_staking_data(&ledger).unwrap(),
        PetStakingData { start_time: Timestamp { nanos: START + WINDOW_NANOS }, amount: 9_999_997 }
    );
    // a time before the window began starts a new one as well
    let early = env_at(20_002, START);
    execute_mint(&mut ledger, early, by("minter"), "lucky".to_string(), 5).unwrap();
    assert_eq!(
        query_pet_staking_data(&ledger).unwrap(),
        PetStakingData { start_time: Timestamp { nanos: START }, amount: 9_999_995 }
    );
}

#[test]
fn mint_window_data_by_itself() {
    let start = Timestamp { nanos: 1_000 };
    let mut window = PetStakingData::new(&start);
    assert_eq!(window, PetStakingData { start_time: start, amount: 10_000_000 });
    assert!(window.is_valid(&Timestamp { nanos: 1_000 }));
    assert!(!window.is_valid(&Timestamp { nanos: 999 }));
    assert!(window.is_valid(&Timestamp { nanos: 1_000 + WINDOW_NANOS - 1 }));
    assert!(!window.is_valid(&Timestamp { nanos: 1_000 + WINDOW_NANOS }));
    window.update_amount(&4).unwrap();
    assert_eq!(window.amount, 9_999_996);
    let err = window.update_amount(&9_999_997).unwrap_err();
    assert_eq!(err, CommonError::Overflow { operation: OverflowOperation::Sub });
    assert_eq!(window.amount, 9_999_996);
    // a window that begins near the end of time covers all that is left of it
    let late = PetStakingData::new(&Timestamp { nanos: u64::MAX - 5 });
    assert!(late.is_valid(&Timestamp { nanos: u64::MAX }));
    assert!(!late.is_valid(&Timestamp { nanos: u64::MAX - 6 }));
}

#[test]
fn mint_refuses_a_supply_out_of_range() {
    let mut ledger = ledger_with(vec![coin("genesis", u128::MAX - 5)]);
    let err = execute_mint(&mut ledger, env(), by("minter"), "lucky".to_string(), 6).unwrap_err();
    assert_eq!(err, overflow_of(OverflowOperation::Add));
    assert_eq!(supply(&ledger), u128::MAX - 5);
    assert!(query_pet_staking_data(&ledger).is_err());
    execute_mint(&mut ledger, env(), by("minter"), "lucky".to_string(), 5).unwrap();
    assert_eq!(supply(&ledger), u128::MAX);
    assert_eq!(balance(&ledger, "lucky"), 5);
}

#[test]
fn mint_before_the_ledger_is_set_up_is_refused() {
    let mut ledger = TokenLedger::new();
    let err = execute_mint(&mut ledger, env(), by("minter"), "lucky".to_string(), 1).unwrap_err();
    assert_eq!(err, ContractError::Unauthorized {});
    let err = execute_update_minter(&mut ledger, env(), by("minter"), "other".to_string()).unwrap_err();
    assert_eq!(err, ContractError::Unauthorized {});
    assert_eq!(query_minter(&ledger).unwrap_err(), CommonError::NotFound {});
    assert_eq!(query_token_info(&ledger).unwrap_err(), CommonError::NotFound {});
    assert_eq!(query_pet_staking_data(&ledger).unwrap_err(), CommonError::NotFound {});
}

#[test]
fn update_minter_hands_the_role_on() {
    let mut ledger = ledger_with(vec![coin("genesis", 1234)]);
    execute_update_minter(&mut ledger, env(), by("minter"), "minter".to_string()).unwrap();
    execute_update_minter(&mut ledger, env(), by("minter"), "heir".to_string()).unwrap();
    assert_eq!(query_minter(&ledger).unwrap(), "heir");
    let err = execute_mint(&mut ledger, env(), by("minter"), "lucky".to_string(), 1).unwrap_err();
    assert_eq!(err, ContractError::Unauthorized {});
    execute_mint(&mut ledger, env(), by("heir"), "lucky".to_string(), 1).unwrap();
    assert_eq!(balance(&ledger, "lucky"), 1);
}

#[test]
fn burn_lowers_balance_and_supply() {
    let mut ledger = ledger_with(vec![coin("ann", 500), coin("cat", 70)]);
    let err = execute_burn(&mut ledger, env(), by("cat"), 71).unwrap_err();
    assert_eq!(err, overflow_of(OverflowOperation::Sub));
    assert_eq!(supply(&ledger), 570);
    let res = execute_burn(&mut ledger, env(), by("cat"), 30).unwrap();
    assert_eq!(res.messages.len(), 0);
    assert_eq!(balance(&ledger, "cat"), 40);
    assert_eq!(supply(&ledger), 540);
    let mut blank = TokenLedger::new();
    let err = execute_burn(&mut blank, env(), by("cat"), 0).unwrap_err();
    assert_eq!(err, ContractError::Std(CommonError::NotFound {}));
}

#[test]
fn send_moves_tokens_and_notifies_the_receiver() {
    let mut ledger = ledger_with(vec![coin("ann", 500)]);
    let attached = b"{\"bond\":{}}".to_vec();
    let res =
        execute_send(&mut ledger, env(), by("ann"), "staking".to_string(), 200, attached.clone())
            .unwrap();
    assert_eq!(balance(&ledger, "ann"), 300);
    assert_eq!(balance(&ledger, "staking"), 200);
    assert_eq!(res.messages.len(), 1);
    assert_eq!(res.messages[0].id, 0);
    assert_eq!(res.messages[0].gas_limit, None);
    assert_eq!(res.messages[0].reply_on, ReplyOn::Never);
    let expected = b"{\"receive\":{\"sender\":\"ann\",\"amount\":\"200\",\"msg\":\"eyJib25kIjp7fX0=\"}}";
    assert_eq!(
        res.messages[0].msg,
        CosmosMsg::Wasm(WasmMsg::Execute {
            contract_addr: "staking".to_string(),
            msg: expected.to_vec(),
            funds: vec![],
        })
    );
    let theirs = cw20::Cw20ReceiveMsg {
        sender: "ann".to_string(),
        amount: cosmwasm_std::Uint128::new(200),
        msg: cosmwasm_std::Binary(attached),
    };
    assert_eq!(theirs.into_binary().unwrap().0, expected.to_vec());

    let err = execute_send(&mut ledger, env(), by("ann"), "staking".to_string(), 301, vec![])
        .unwrap_err();
    assert_eq!(err, overflow_of(OverflowOperation::Sub));
    assert_eq!(balance(&ledger, "ann"), 300);
}

#[test]
fn send_with_a_notice_that_failed_changes_nothing() {
    let mut ledger = ledger_with(vec![coin("ann", 500)]);
    let failed = Err(CommonError::SerializeErr {});
    let err = execute_send_with(&mut ledger, by("ann"), "staking".to_string(), 200, failed).unwrap_err();
    assert_eq!(err, ContractError::Std(CommonError::SerializeErr {}));
    assert_eq!(balance(&ledger, "ann"), 500);
    // too little in the account is reported before the notice is looked at
    let failed = Err(CommonError::SerializeErr {});
    let err = execute_send_with(&mut ledger, by("ann"), "staking".to_string(), 501, failed).unwrap_err();
    assert_eq!(err, overflow_of(OverflowOperation::Sub));
    let res = execute_send_with(&mut ledger, by("ann"), "staking".to_string(), 500, Ok(vec![1, 2, 3]))
        .unwrap();
    assert_eq!(
        res.messages[0].msg,
        CosmosMsg::Wasm(WasmMsg::Execute {
            contract_addr: "staking".to_string(),
            msg: vec![1, 2, 3],
            funds: vec![],
        })
    );
    assert_eq!(balance(&ledger, "staking"), 500);
}

#[test]
fn instantiate_refuses_bad_names_symbols_and_decimals() {
    let good = || InstantiateMsg {
        name: "Pet Token".to_string(),
        symbol: "PET".to_string(),
        decimals: 18,
        initial_balances: vec![coin("ann", 1)],
        mint: "minter".to_string(),
    };
    assert_eq!(good().validate(), Ok(()));

    let mut ledger = ledger_with(vec![coin("old", 5)]);
    let msg = InstantiateMsg { name: "ab".to_string(), ..good() };
    let err = instantiate(&mut ledger, env(), by("creator"), msg).unwrap_err();
    assert_eq!(
        err,
        ContractError::Std(CommonError::GenericErr {
            msg: "Name is not in the expected format (3-50 UTF-8 bytes)".to_string()
        })
    );
    // two characters of two bytes each are four bytes: long enough
    let msg = InstantiateMsg { name: "éé".to_string(), ..good() };
    assert_eq!(msg.validate(), Ok(()));

    let msg = InstantiateMsg { symbol: "PE7".to_string(), ..good() };
    let err = instantiate(&mut ledger, env(), by("creator"), msg).unwrap_err();
    assert_eq!(
        err,
        ContractError::Std(CommonError::GenericErr {
            msg: "Ticker symbol is not in expected format [a-zA-Z\\-]{3,12}".to_string()
        })
    );
    let msg = InstantiateMsg { symbol: "a-Z".to_string(), ..good() };
    assert_eq!(msg.validate(), Ok(()));

    let msg = InstantiateMsg { decimals: 19, ..good() };
    let err = instantiate(&mut ledger, env(), by("creator"), msg).unwrap_err();
    assert_eq!(
        err,
        ContractError::Std(CommonError::GenericErr { msg: "Decimals must not exceed 18".to_string() })
    );
    // name is looked at first
    let msg = InstantiateMsg { name: "a".to_string(), symbol: "7".to_string(), decimals: 30, ..good() };
    assert_eq!(
        msg.validate(),
        Err(CommonError::GenericErr {
            msg: "Name is not in the expected format (3-50 UTF-8 bytes)".to_string()
        })
    );
    // the ledger is as it was
    assert_eq!(balance(&ledger, "old"), 5);
    assert_eq!(supply(&ledger), 5);
}

#[test]
fn instantiate_refuses_a_supply_out_of_range() {
    let mut ledger = TokenLedger::new();
    let msg = InstantiateMsg {
        name: "Pet Token".to_string(),
        symbol: "PET".to_string(),
        decimals: 6,
        initial_balances: vec![coin("ann", u128::MAX), coin("bob", 1)],
        mint: "minter".to_string(),
    };
    let err = instantiate(&mut ledger, env(), by("creator"), msg).unwrap_err();
    assert_eq!(err, overflow_of(OverflowOperation::Add));
    assert!(query_token_info(&ledger).is_err());
    assert_eq!(balance(&ledger, "ann"), 0);
}

#[test]
fn instantiate_starts_afresh() {
    let mut ledger = ledger_with(vec![coin("ann", 500)]);
    execute_increase_allowance(&mut ledger, env(), by("ann"), "bob".to_string(), 5, None).unwrap();
    execute_mint(&mut ledger, env(), by("minter"), "ann".to_string(), 5).unwrap();
    let msg = InstantiateMsg {
        name: "Other".to_string(),
        symbol: "OTH".to_string(),
        decimals: 0,
        initial_balances: vec![coin("zed", 9), coin("nil", 0)],
        mint: "zed".to_string(),
    };
    instantiate(&mut ledger, env(), by("creator"), msg).unwrap();
    let stored = export(&ledger);
    assert_eq!(stored.balances, vec![coin("zed", 9)]);
    assert_eq!(stored.allowances.len(), 0);
    assert_eq!(stored.allowances_spender.len(), 0);
    assert_eq!(stored.pet_staking_data, None);
    assert_eq!(supply(&ledger), 9);
}

#[test]
fn accounts_are_validated_and_created() {
    assert_eq!(validate_accounts(&[]), Ok(()));
    assert_eq!(validate_accounts(&[coin("a", 1), coin("b", 1), coin("c", 1)]), Ok(()));
    assert_eq!(
        validate_accounts(&[coin("a", 1), coin("b", 1), coin("a", 2)]),
        Err(ContractError::DuplicateInitialBalanceAddresses {})
    );
    let mut accounts = Accounts::new();
    assert_eq!(create_accounts(&mut accounts, &[coin("b", 7), coin("a", 5), coin("c", 0)]), Ok(12));
    assert_eq!(accounts.balance(&"a".to_string()), 5);
    assert_eq!(accounts.balance(&"b".to_string()), 7);
    assert_eq!(accounts.balance(&"c".to_string()), 0);
    assert_eq!(accounts.to_vec(), vec![coin("a", 5), coin("b", 7)]);
    assert_eq!(
        create_accounts(&mut accounts, &[coin("d", 1), coin("d", 1)]),
        Err(ContractError::DuplicateInitialBalanceAddresses {})
    );
    assert_eq!(
        create_accounts(&mut accounts, &[coin("d", u128::MAX), coin("e", 1)]),
        Err(overflow_of(OverflowOperation::Add))
    );
    assert_eq!(accounts.to_vec(), vec![coin("a", 5), coin("b", 7)]);
}

#[test]
fn accounts_are_listed_in_order_page_by_page() {
    let names: Vec<String> = (0..35).map(|i| format!("acct{:02}", i)).collect();
    let seeds: Vec<Cw20Coin> = names.iter().rev().map(|n| coin(n, 1)).collect();
    let ledger = ledger_with(seeds);

    assert_eq!(DEFAULT_LIMIT, 10);
    assert_eq!(MAX_LIMIT, 30);
    let page = query_all_accounts(&ledger, None, None).unwrap().accounts;
    assert_eq!(page, names[0..10].to_vec());
    let page = query_all_accounts(&ledger, None, Some(3)).unwrap().accounts;
    assert_eq!(page, names[0..3].to_vec());
    let page = query_all_accounts(&ledger, None, Some(1_000)).unwrap().accounts;
    assert_eq!(page, names[0..30].to_vec());
    let page = query_all_accounts(&ledger, None, Some(0)).unwrap().accounts;
    assert_eq!(page.len(), 0);
    // the cursor itself is left out
    let page = query_all_accounts(&ledger, Some("acct29".to_string()), Some(30)).unwrap().accounts;
    assert_eq!(page, names[30..35].to_vec());
    // the cursor need not be an account
    let page = query_all_accounts(&ledger, Some("acct299".to_string()), Some(2)).unwrap().accounts;
    assert_eq!(page, names[30..32].to_vec());
    let page = query_all_accounts(&ledger, Some("zzz".to_string()), None).unwrap().accounts;
    assert_eq!(page.len(), 0);

    match query(&ledger, env(), QueryMsg::AllAccounts { start_after: None, limit: Some(2) }).unwrap() {
        QueryResponse::AllAccounts(res) => assert_eq!(res.accounts, names[0..2].to_vec()),
        _ => panic!("the query for accounts was answered with something else"),
    }
}

#[test]
fn accounts_are_ordered_by_their_bytes() {
    let ledger = ledger_with(vec![coin("b", 1), coin("B", 1), coin("ab", 1), coin("a", 1), coin("é", 1)]);
    let page = query_all_accounts(&ledger, None, None).unwrap().accounts;
    assert_eq!(page, vec!["B", "a", "ab", "b", "é"]);
}

#[test]
fn allowances_are_listed_by_owner_and_by_spender() {
    let mut ledger = ledger_with(vec![coin("ann", 500)]);
    let until = Expiration::AtHeight(20_000);
    for (owner, spender, amount) in
        [("ann", "s3", 3u128), ("ann", "s1", 1), ("bob", "s1", 10), ("ann", "s2", 2), ("an", "s9", 9)]
    {
        execute_increase_allowance(
            &mut ledger,
            env(),
            by(owner),
            spender.to_string(),
            amount,
            Some(until),
        )
        .unwrap();
    }
    let info = |spender: &str, allowance: u128| AllowanceInfo {
        spender: spender.to_string(),
        allowance,
        expires: until,
    };
    let all = query_owner_allowances(&ledger, "ann".to_string(), None, None).unwrap().allowances;
    assert_eq!(all, vec![info("s1", 1), info("s2", 2), info("s3", 3)]);
    let page = query_owner_allowances(&ledger, "ann".to_string(), None, Some(2)).unwrap().allowances;
    assert_eq!(page, vec![info("s1", 1), info("s2", 2)]);
    let page = query_owner_allowances(&ledger, "ann".to_string(), Some("s1".to_string()), Some(5))
        .unwrap()
        .allowances;
    assert_eq!(page, vec![info("s2", 2), info("s3", 3)]);
    let page = query_owner_allowances(&ledger, "ann".to_string(), Some("s3".to_string()), None)
        .unwrap()
        .allowances;
    assert_eq!(page.len(), 0);
    let none = query_owner_allowances(&ledger, "a".to_string(), None, None).unwrap().allowances;
    assert_eq!(none.len(), 0);

    let from = |owner: &str, allowance: u128| SpenderAllowanceInfo {
        owner: owner.to_string(),
        allowance,
        expires: until,
    };
    let all = query_spender_allowances(&ledger, "s1".to_string(), None, None).unwrap().allowances;
    assert_eq!(all, vec![from("ann", 1), from("bob", 10)]);
    let page = query_spender_allowances(&ledger, "s1".to_string(), Some("ann".to_string()), None)
        .unwrap()
        .allowances;
    assert_eq!(page, vec![from("bob", 10)]);
    match query(
        &ledger,
        env(),
        QueryMsg::AllSpenderAllowances { spender: "s9".to_string(), start_after: None, limit: None },
    )
    .unwrap()
    {
        QueryResponse::AllSpenderAllowances(res) => assert_eq!(res.allowances, vec![from("an", 9)]),
        _ => panic!("the query for allowances was answered with something else"),
    }
}

#[test]
fn queries_are_answered_by_kind() {
    let mut ledger = ledger_with(vec![coin("ann", 500)]);
    execute_increase_allowance(&mut ledger, env(), by("ann"), "bob".to_string(), 5, None).unwrap();
    match query(&ledger, env(), QueryMsg::TokenInfo {}).unwrap() {
        QueryResponse::TokenInfo(res) => {
            assert_eq!(res.name, "Pet Token");
            assert_eq!(res.symbol, "PET");
            assert_eq!(res.decimals, 6);
            assert_eq!(res.total_supply, 500);
        }
        _ => panic!("the query for the token was answered with something else"),
    }
    match query(
        &ledger,
        env(),
        QueryMsg::Allowance { owner: "ann".to_string(), spender: "bob".to_string() },
    )
    .unwrap()
    {
        QueryResponse::Allowance(res) => {
            assert_eq!(res, AllowanceResponse { allowance: 5, expires: Expiration::Never {} })
        }
        _ => panic!("the query for an allowance was answered with something else"),
    }
    assert!(matches!(query(&ledger, env(), QueryMsg::PetStaking {}), Err(CommonError::NotFound {})));
    execute_mint(&mut ledger, env(), by("minter"), "ann".to_string(), 1).unwrap();
    match query(&ledger, env(), QueryMsg::PetStaking {}).unwrap() {
        QueryResponse::PetStaking(res) => assert_eq!(res.amount, 9_999_999),
        _ => panic!("the query for the window was answered with something else"),
    }
}

#[test]
fn execute_refuses_what_the_operations_refuse() {
    let mut ledger = ledger_with(vec![coin("ann", 500)]);
    let msg = ExecuteMsg::TransferFrom {
        owner: "ann".to_string(),
        recipient: "cat".to_string(),
        amount: 1,
    };
    assert_eq!(execute(&mut ledger, env(), by("bob"), msg).unwrap_err(), ContractError::NoAllowance {});
    let msg = ExecuteMsg::DecreaseAllowance { spender: "bob".to_string(), amount: 1, expires: None };
    assert_eq!(
        execute(&mut ledger, env(), by("ann"), msg).unwrap_err(),
        overflow_of(OverflowOperation::Sub)
    );
    let msg = ExecuteMsg::IncreaseAllowance {
        spender: "bob".to_string(),
        amount: 1,
        expires: Some(Expiration::AtHeight(5)),
    };
    assert_eq!(
        execute(&mut ledger, env(), by("ann"), msg).unwrap_err(),
        ContractError::InvalidExpiration {}
    );
    let msg = ExecuteMsg::IncreaseAllowance { spender: "bob".to_string(), amount: 9, expires: None };
    execute(&mut ledger, env(), by("ann"), msg).unwrap();
    let msg = ExecuteMsg::TransferFrom {
        owner: "ann".to_string(),
        recipient: "cat".to_string(),
        amount: 4,
    };
    execute(&mut ledger, env(), by("bob"), msg).unwrap();
    assert_eq!(balance(&ledger, "cat"), 4);
    assert_eq!(allowance(&ledger, env(), "ann", "bob").allowance, 5);
}

#[test]
fn errors_describe_themselves() {
    assert_eq!(ContractError::Unauthorized {}.to_string(), "Unauthorized");
    assert_eq!(ContractError::Expired {}.to_string(), "Allowance is expired");
    assert_eq!(ContractError::NoAllowance {}.to_string(), "No allowance for this account");
    assert_eq!(ContractError::InvalidExpiration {}.to_string(), "Invalid expiration value");
    assert_eq!(
        ContractError::DuplicateInitialBalanceAddresses {}.to_string(),
        "Duplicate initial balance addresses"
    );
    assert_eq!(
        ContractError::TokenLimitReached {}.to_string(),
        "Token limit of 1M per day for pet staking has been reached"
    );
    assert_eq!(ContractError::CannotSetOwnAccount {}.to_string(), "Cannot set to own account");
    assert_eq!(ContractError::InvalidZeroAmount {}.to_string(), "Invalid zero amount");
    assert_eq!(ContractError::CannotExceedCap {}.to_string(), "Minting cannot exceed the cap");
    assert_eq!(
        ContractError::Std(CommonError::GenericErr { msg: "why".to_string() }).to_string(),
        "why"
    );
}

#[test]
fn migrate_reads_the_version() {
    let mut ledger = ledger_with(vec![coin("ann", 500)]);
    for version in ["0.13.4", "0.14.0", "0.14.0-rc1", "1.0.0", "2.5.1"] {
        let res = migrate(&mut ledger, env(), version, MigrateMsg {}).unwrap();
        assert_eq!(res.messages.len(), 0);
    }
    for version in ["", "1.0", "one", "1.0.0.0"] {
        let err = migrate(&mut ledger, env(), version, MigrateMsg {}).unwrap_err();
        assert_eq!(err, ContractError::Std(CommonError::ParseErr {}));
    }
    assert_eq!(balance(&ledger, "ann"), 500);
}

fn legacy_ledger() -> TokenLedger {
    // a ledger from before there was an index by spender
    let record = |owner: &str, spender: &str, allowance: u128| Entry {
        key: PairKey { first: owner.to_string(), second: spender.to_string() },
        value: AllowanceResponse { allowance, expires: Expiration::AtHeight(99) },
    };
    restore(Stored {
        token_info: Some(TokenInfo {
            name: "Pet Token".to_string(),
            symbol: "PET".to_string(),
            decimals: 6,
            total_supply: 500,
            mint: "minter".to_string(),
        }),
        balances: vec![coin("ann", 500)],
        allowances: vec![record("bob", "s1", 3), record("ann", "s1", 7), record("ann", "s2", 8)],
        allowances_spender: vec![],
        pet_staking_data: None,
    })
    .unwrap()
}

#[test]
fn migrate_fills_the_index_by_spender_of_an_old_ledger() {
    let from = |owner: &str, allowance: u128| SpenderAllowanceInfo {
        owner: owner.to_string(),
        allowance,
        expires: Expiration::AtHeight(99),
    };
    let spenders_of = |ledger: &TokenLedger, spender: &str| {
        query_spender_allowances(ledger, spender.to_string(), None, None).unwrap().allowances
    };

    let mut ledger = legacy_ledger();
    assert_eq!(spenders_of(&ledger, "s1").len(), 0);
    // a version that had the index already: nothing to do
    migrate(&mut ledger, env(), "0.14.0", MigrateMsg {}).unwrap();
    assert_eq!(spenders_of(&ledger, "s1").len(), 0);
    migrate(&mut ledger, env(), "1.0.0", MigrateMsg {}).unwrap();
    assert_eq!(spenders_of(&ledger, "s1").len(), 0);
    // an older one
    migrate(&mut ledger, env(), "0.13.9", MigrateMsg {}).unwrap();
    assert_eq!(spenders_of(&ledger, "s1"), vec![from("ann", 7), from("bob", 3)]);
    assert_eq!(spenders_of(&ledger, "s2"), vec![from("ann", 8)]);
    assert_eq!(export(&ledger).allowances.len(), 3);

    let mut ledger = legacy_ledger();
    migrate_with(&mut ledger, Some(false)).unwrap();
    assert_eq!(spenders_of(&ledger, "s1").len(), 0);
    assert_eq!(
        migrate_with(&mut ledger, None).unwrap_err(),
        ContractError::Std(CommonError::ParseErr {})
    );
    migrate_with(&mut ledger, Some(true)).unwrap();
    assert_eq!(spenders_of(&ledger, "s1"), vec![from("ann", 7), from("bob", 3)]);
}

#[test]
fn records_restore_to_the_ledger_they_came_from() {
    let mut ledger = ledger_with(vec![coin("ann", 500), coin("cat", 70)]);
    execute_increase_allowance(&mut ledger, env(), by("ann"), "bob".to_string(), 5, None).unwrap();
    execute_mint(&mut ledger, env(), by("minter"), "dan".to_string(), 12).unwrap();
    let stored = export(&ledger);
    assert_eq!(stored.balances, vec![coin("ann", 500), coin("cat", 70), coin("dan", 12)]);
    assert_eq!(stored.token_info.as_ref().unwrap().total_supply, 582);
    assert_eq!(stored.allowances.len(), 1);
    assert_eq!(stored.allowances_spender[0].key.first, "bob");
    assert_eq!(stored.allowances_spender[0].key.second, "ann");
    let again = restore(stored).unwrap();
    let stored = export(&ledger);
    let twice = export(&again);
    assert_eq!(twice.balances, stored.balances);
    assert_eq!(twice.allowances, stored.allowances);
    assert_eq!(twice.allowances_spender, stored.allowances_spender);
    assert_eq!(twice.pet_staking_data, stored.pet_staking_data);
    assert_eq!(query_minter(&again).unwrap(), "minter");
    assert_eq!(balance(&again, "dan"), 12);
}

#[test]
fn records_that_do_not_add_up_are_refused() {
    let info = |total_supply: u128| {
        Some(TokenInfo {
            name: "Pet Token".to_string(),
            symbol: "PET".to_string(),
            decimals: 6,
            total_supply,
            mint: "minter".to_string(),
        })
    };
    let stored = |token_info: Option<TokenInfo>, balances: Vec<Cw20Coin>| Stored {
        token_info,
        balances,
        allowances: vec![],
        allowances_spender: vec![],
        pet_staking_data: None,
    };
    assert!(restore(stored(info(10), vec![coin("a", 4), coin("b", 6)])).is_some());
    assert!(restore(stored(info(11), vec![coin("a", 4), coin("b", 6)])).is_none());
    assert!(restore(stored(info(8), vec![coin("a", 4), coin("a", 4)])).is_none());
    assert!(restore(stored(None, vec![coin("a", 4)])).is_none());
    assert!(restore(stored(None, vec![coin("a", 0)])).is_some());
    assert!(restore(stored(info(0), vec![coin("a", u128::MAX), coin("b", 1)])).is_none());
}
