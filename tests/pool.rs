use liquidity_pool::address::{Address, AddressType};
use liquidity_pool::balance::Token;
use liquidity_pool::error::PoolError;
use liquidity_pool::pool::LiquiditySwapContractState;

fn account(n: u8) -> Address {
    let mut identifier = [0u8; 20];
    identifier[19] = n;
    Address { address_type: AddressType::Account, identifier }
}

fn contract(n: u8) -> Address {
    let mut identifier = [0u8; 20];
    identifier[0] = n;
    Address { address_type: AddressType::PublicContract, identifier }
}

fn pool_address() -> Address {
    contract(1)
}

fn token_a() -> Address {
    contract(2)
}

fn token_b() -> Address {
    contract(3)
}

fn new_pool(fee: u16) -> LiquiditySwapContractState {
    LiquiditySwapContractState::initialize(pool_address(), token_a(), token_b(), fee).unwrap()
}

fn fund(state: &mut LiquiditySwapContractState, user: Address, token: Address, amount: u128) {
    let pending = state.deposit(user, token, amount).unwrap();
    state
        .deposit_callback(pending.transfer.sender, true, pending.token, pending.amount)
        .unwrap();
}

/// A pool with fee 3 seeded by account 1 with the given reserves.
fn seeded_pool(reserve_a: u128, reserve_b: u128) -> LiquiditySwapContractState {
    let mut state = new_pool(3);
    fund(&mut state, account(1), token_a(), reserve_a);
    fund(&mut state, account(1), token_b(), reserve_b);
    state
        .provide_initial_liquidity(account(1), reserve_a, reserve_b)
        .unwrap();
    state
}

fn reserves(state: &LiquiditySwapContractState) -> (u128, u128) {
    let b = state.get_balance(&pool_address());
    (b.a_tokens, b.b_tokens)
}

fn total_of(state: &LiquiditySwapContractState, token: Token) -> u128 {
    state
        .token_balances
        .balances
        .iter()
        .map(|(_, b)| b.for_token(token))
        .sum()
}

#[test]
fn initialize_checks_configuration() {
    assert!(LiquiditySwapContractState::initialize(pool_address(), token_a(), token_b(), 1000).is_ok());
    assert_eq!(
        LiquiditySwapContractState::initialize(pool_address(), token_a(), token_b(), 1001).err(),
        Some(PoolError::InvalidConfiguration)
    );
    assert_eq!(
        LiquiditySwapContractState::initialize(pool_address(), token_a(), token_a(), 3).err(),
        Some(PoolError::InvalidConfiguration)
    );
    let state = new_pool(3);
    assert!(state.is_valid());
    assert!(!state.contract_pools_have_liquidity());
}

#[test]
fn deposit_is_credited_only_on_confirmation() {
    let mut state = new_pool(3);
    let pending = state.deposit(account(7), token_b(), 250).unwrap();
    assert_eq!(pending.token, Token::B);
    assert_eq!(pending.amount, 250);
    assert_eq!(pending.transfer.token_contract, token_b());
    assert_eq!(pending.transfer.sender, account(7));
    assert_eq!(pending.transfer.receiver, pool_address());
    assert_eq!(pending.transfer.amount, 250);
    assert!(state.get_balance(&account(7)).is_empty());

    assert_eq!(
        state.deposit_callback(account(7), false, Token::B, 250),
        Err(PoolError::TransferFailed)
    );
    assert!(state.get_balance(&account(7)).is_empty());

    assert_eq!(
        state.deposit_callback(account(7), true, Token::Liquidity, 250),
        Err(PoolError::UnknownToken)
    );
    state.deposit_callback(account(7), true, Token::B, 250).unwrap();
    assert_eq!(state.get_balance(&account(7)).b_tokens, 250);
    assert_eq!(state.get_balance(&account(7)).a_tokens, 0);
}

#[test]
fn deposit_of_unknown_token_is_refused() {
    let state = new_pool(3);
    assert_eq!(state.deposit(account(7), contract(9), 1).err(), Some(PoolError::UnknownToken));
}

#[test]
fn deposit_overflow_is_refused() {
    let mut state = new_pool(3);
    fund(&mut state, account(2), token_a(), u128::MAX);
    assert_eq!(
        state.deposit_callback(account(2), true, Token::A, 1),
        Err(PoolError::Overflow)
    );
    assert_eq!(state.get_balance(&account(2)).a_tokens, u128::MAX);
}

#[test]
fn withdraw_debits_and_requests_a_transfer() {
    let mut state = new_pool(3);
    fund(&mut state, account(2), token_a(), 100);
    let transfer = state.withdraw(account(2), token_a(), 40).unwrap();
    assert_eq!(transfer.token_contract, token_a());
    assert_eq!(transfer.sender, pool_address());
    assert_eq!(transfer.receiver, account(2));
    assert_eq!(transfer.amount, 40);
    assert_eq!(state.get_balance(&account(2)).a_tokens, 60);
}

#[test]
fn withdraw_more_than_held_is_refused() {
    let mut state = new_pool(3);
    fund(&mut state, account(2), token_a(), 100);
    assert_eq!(
        state.withdraw(account(2), token_a(), 101).err(),
        Some(PoolError::InsufficientBalance)
    );
    assert_eq!(
        state.withdraw(account(2), token_b(), 1).err(),
        Some(PoolError::InsufficientBalance)
    );
    assert_eq!(
        state.withdraw(account(2), contract(9), 1).err(),
        Some(PoolError::UnknownToken)
    );
    assert_eq!(state.get_balance(&account(2)).a_tokens, 100);
}

#[test]
fn initial_liquidity_mints_square_root_of_product() {
    let mut state = new_pool(3);
    fund(&mut state, account(1), token_a(), 1000);
    fund(&mut state, account(1), token_b(), 4000);
    assert_eq!(state.provide_initial_liquidity(account(1), 1000, 4000), Ok(2000));
    assert_eq!(reserves(&state), (1000, 4000));
    assert_eq!(state.get_balance(&pool_address()).liquidity_tokens, 2000);
    assert_eq!(state.get_balance(&account(1)).liquidity_tokens, 2000);
    assert_eq!(state.get_balance(&account(1)).a_tokens, 0);
    assert!(state.contract_pools_have_liquidity());
}

#[test]
fn initial_liquidity_on_liquid_pool_is_refused() {
    let mut state = seeded_pool(1000, 1000);
    fund(&mut state, account(2), token_a(), 10);
    fund(&mut state, account(2), token_b(), 10);
    assert_eq!(
        state.provide_initial_liquidity(account(2), 10, 10),
        Err(PoolError::AlreadyLiquid)
    );
}

#[test]
fn initial_liquidity_of_nothing_is_refused() {
    let mut state = new_pool(3);
    fund(&mut state, account(1), token_a(), 1000);
    assert_eq!(
        state.provide_initial_liquidity(account(1), 1000, 0),
        Err(PoolError::ZeroLiquidityMinted)
    );
    assert_eq!(state.get_balance(&account(1)).a_tokens, 1000);
}

#[test]
fn initial_liquidity_without_funds_is_refused() {
    let mut state = new_pool(3);
    fund(&mut state, account(1), token_a(), 1000);
    assert_eq!(
        state.provide_initial_liquidity(account(1), 1000, 10),
        Err(PoolError::InsufficientBalance)
    );
    assert_eq!(state.get_balance(&account(1)).a_tokens, 1000);
    assert!(state.get_balance(&pool_address()).is_empty());
}

#[test]
fn swap_against_balanced_pool() {
    let mut state = seeded_pool(1000, 1000);
    fund(&mut state, account(2), token_a(), 100);
    assert_eq!(state.swap(account(2), token_a(), 100, 90), Ok(90));
    assert_eq!(reserves(&state), (1100, 910));
    assert_eq!(state.get_balance(&account(2)).a_tokens, 0);
    assert_eq!(state.get_balance(&account(2)).b_tokens, 90);
}

#[test]
fn swap_on_illiquid_pool_is_refused() {
    let mut state = new_pool(3);
    fund(&mut state, account(2), token_a(), 100);
    assert_eq!(state.swap(account(2), token_a(), 100, 0), Err(PoolError::PoolNotLiquid));
}

#[test]
fn swap_below_minimum_is_refused() {
    let mut state = seeded_pool(1000, 1000);
    fund(&mut state, account(2), token_a(), 100);
    assert_eq!(
        state.swap(account(2), token_a(), 100, 91),
        Err(PoolError::SlippageExceeded)
    );
    assert_eq!(reserves(&state), (1000, 1000));
    assert_eq!(state.get_balance(&account(2)).a_tokens, 100);
}

#[test]
fn swap_errors_leave_the_pool_unchanged() {
    let mut state = seeded_pool(1000, 1000);
    fund(&mut state, account(2), token_a(), 50);
    assert_eq!(
        state.swap(account(2), token_a(), 100, 0),
        Err(PoolError::InsufficientBalance)
    );
    assert_eq!(
        state.swap(account(2), contract(9), 10, 0),
        Err(PoolError::UnknownToken)
    );
    assert_eq!(reserves(&state), (1000, 1000));
    assert_eq!(state.get_balance(&account(2)).a_tokens, 50);
}

#[test]
fn swap_with_full_fee_pays_nothing() {
    let mut state = new_pool(1000);
    fund(&mut state, account(1), token_a(), 1000);
    fund(&mut state, account(1), token_b(), 1000);
    state.provide_initial_liquidity(account(1), 1000, 1000).unwrap();
    fund(&mut state, account(2), token_a(), 100);
    assert_eq!(state.swap(account(2), token_a(), 100, 0), Ok(0));
    assert_eq!(reserves(&state), (1100, 1000));
}

#[test]
fn swaps_never_decrease_the_constant_product() {
    let mut state = seeded_pool(1000, 1000);
    fund(&mut state, account(2), token_a(), 10_000);
    fund(&mut state, account(2), token_b(), 10_000);
    let mut product = 1000u128 * 1000;
    for (token, amount) in [(token_a(), 100), (token_b(), 37), (token_a(), 1), (token_b(), 900)] {
        state.swap(account(2), token, amount, 0).unwrap();
        let (a, b) = reserves(&state);
        assert!(a * b > product);
        product = a * b;
    }
}

#[test]
fn opposite_swaps_never_decrease_the_constant_product() {
    let mut state = seeded_pool(1000, 1000);
    fund(&mut state, account(2), token_a(), 100);
    let out = state.swap(account(2), token_a(), 100, 0).unwrap();
    assert_eq!(out, 90);
    let back = state.swap(account(2), token_b(), out, 0).unwrap();
    // 997 * 90 * 1100 / (1000 * 910 + 997 * 90) = 98703000 / 999730 = 98
    assert_eq!(back, 98);
    let (a, b) = reserves(&state);
    assert_eq!((a, b), (1002, 1000));
    assert!(a * b >= 1000 * 1000);
    assert_eq!(state.get_balance(&account(2)).a_tokens, 98);
}

#[test]
fn provide_liquidity_moves_equivalent_and_mints_shares() {
    let mut state = seeded_pool(1000, 2000);
    // seeding minted floor(sqrt(2_000_000)) = 1414 shares
    assert_eq!(state.get_balance(&pool_address()).liquidity_tokens, 1414);
    fund(&mut state, account(2), token_a(), 100);
    fund(&mut state, account(2), token_b(), 300);
    // equivalent: 100 * 2000 / 1000 + 1 = 201; minted: 100 * 1414 / 1000 = 141
    assert_eq!(state.provide_liquidity(account(2), token_a(), 100), Ok(141));
    assert_eq!(reserves(&state), (1100, 2201));
    let user = state.get_balance(&account(2));
    assert_eq!((user.a_tokens, user.b_tokens, user.liquidity_tokens), (0, 99, 141));
    assert_eq!(state.get_balance(&pool_address()).liquidity_tokens, 1555);
}

#[test]
fn provide_liquidity_of_zero_mints_nothing() {
    let mut state = seeded_pool(1000, 1000);
    assert_eq!(
        state.provide_liquidity(account(2), token_a(), 0),
        Err(PoolError::ZeroLiquidityMinted)
    );
    let mut empty = new_pool(3);
    assert_eq!(
        empty.provide_liquidity(account(2), token_a(), 0),
        Err(PoolError::ZeroLiquidityMinted)
    );
}

#[test]
fn provide_liquidity_errors() {
    let mut state = seeded_pool(1000, 1000);
    fund(&mut state, account(2), token_a(), 100);
    assert_eq!(
        state.provide_liquidity(account(2), token_a(), 100),
        Err(PoolError::InsufficientBalance)
    );
    assert_eq!(
        state.provide_liquidity(account(2), contract(9), 100),
        Err(PoolError::UnknownToken)
    );
    assert_eq!(state.get_balance(&account(2)).a_tokens, 100);
    assert_eq!(reserves(&state), (1000, 1000));
}

#[test]
fn reclaim_liquidity_pays_out_proportional_part() {
    let mut state = seeded_pool(1000, 4000);
    // account 1 holds 2000 of 2000 shares
    assert_eq!(state.reclaim_liquidity(account(1), 500), Ok((250, 1000)));
    assert_eq!(reserves(&state), (750, 3000));
    let user = state.get_balance(&account(1));
    assert_eq!((user.a_tokens, user.b_tokens, user.liquidity_tokens), (250, 1000, 1500));
    assert_eq!(state.get_balance(&pool_address()).liquidity_tokens, 1500);
}

#[test]
fn reclaim_more_than_held_is_refused() {
    let mut state = seeded_pool(1000, 4000);
    assert_eq!(
        state.reclaim_liquidity(account(1), 2001),
        Err(PoolError::InsufficientBalance)
    );
    assert_eq!(
        state.reclaim_liquidity(account(2), 1),
        Err(PoolError::InsufficientBalance)
    );
    assert_eq!(reserves(&state), (1000, 4000));
}

#[test]
fn provide_then_reclaim_returns_no_more_than_provided() {
    let mut state = seeded_pool(1000, 2000);
    fund(&mut state, account(2), token_a(), 100);
    fund(&mut state, account(2), token_b(), 300);
    let minted = state.provide_liquidity(account(2), token_a(), 100).unwrap();
    let (a, b) = state.reclaim_liquidity(account(2), minted).unwrap();
    assert!(a <= 100);
    assert!(b <= 201);
    // 1100 * 141 / 1555 = 99, 2201 * 141 / 1555 = 199
    assert_eq!((a, b), (99, 199));
}

#[test]
fn seed_then_reclaim_returns_exactly_what_was_seeded() {
    let mut state = seeded_pool(1000, 4000);
    assert_eq!(state.reclaim_liquidity(account(1), 2000), Ok((1000, 4000)));
    assert_eq!(reserves(&state), (0, 0));
    assert!(!state.contract_pools_have_liquidity());
}

#[test]
fn operations_conserve_token_totals() {
    let mut state = seeded_pool(1000, 1000);
    fund(&mut state, account(2), token_a(), 500);
    fund(&mut state, account(2), token_b(), 500);
    assert_eq!(total_of(&state, Token::A), 1500);
    assert_eq!(total_of(&state, Token::B), 1500);
    state.swap(account(2), token_a(), 100, 0).unwrap();
    state.provide_liquidity(account(2), token_b(), 50).unwrap();
    state.reclaim_liquidity(account(1), 300).unwrap();
    assert_eq!(total_of(&state, Token::A), 1500);
    assert_eq!(total_of(&state, Token::B), 1500);
    state.withdraw(account(2), token_b(), 20).unwrap();
    assert_eq!(total_of(&state, Token::B), 1480);
    assert_eq!(total_of(&state, Token::A), 1500);
}
