use liquidity_pool::address::{Address, AddressType};
use liquidity_pool::balance::{Balance, Token};
use liquidity_pool::zk_swap::{calculate_token_to_amount, ContractState, ZkSwapError};

fn address(kind: AddressType, n: u8) -> Address {
    let mut identifier = [0u8; 20];
    identifier[19] = n;
    Address { address_type: kind, identifier }
}

fn owner() -> Address {
    address(AddressType::Account, 1)
}

fn trader() -> Address {
    address(AddressType::Account, 2)
}

fn pool() -> Address {
    address(AddressType::ZkContract, 1)
}

fn token_a() -> Address {
    address(AddressType::PublicContract, 2)
}

fn token_b() -> Address {
    address(AddressType::PublicContract, 3)
}

fn new_state() -> ContractState {
    ContractState::initialize(pool(), owner(), token_a(), token_b()).unwrap()
}

/// A pool opened by the owner with pools of 1000 and 1000.
fn open_state() -> ContractState {
    let mut state = new_state();
    state.deposit(owner(), token_a(), 1000).unwrap();
    state.deposit(owner(), token_b(), 1000).unwrap();
    state.provide_liquidity(owner(), token_a(), 1000).unwrap();
    state.provide_liquidity(owner(), token_b(), 1000).unwrap();
    state
}

fn pools(state: &ContractState) -> (u128, u128) {
    let b = state.balances.get_balance(&pool());
    (b.a_tokens, b.b_tokens)
}

#[test]
fn initialize_checks_the_tokens() {
    let state = new_state();
    assert!(state.is_closed);
    assert_eq!(state.swap_constant, 0);
    assert_eq!(
        ContractState::initialize(pool(), owner(), address(AddressType::Account, 9), token_b()).err(),
        Some(ZkSwapError::NotPublicContract)
    );
    assert_eq!(
        ContractState::initialize(pool(), owner(), token_a(), token_a()).err(),
        Some(ZkSwapError::DuplicateTokens)
    );
}

#[test]
fn owner_opens_the_pool_by_providing_both_tokens() {
    let mut state = new_state();
    assert_eq!(state.deposit(trader(), token_a(), 5), Err(ZkSwapError::Closed));
    state.deposit(owner(), token_a(), 1000).unwrap();
    state.deposit(owner(), token_b(), 2000).unwrap();
    assert_eq!(
        state.provide_liquidity(trader(), token_a(), 1000),
        Err(ZkSwapError::NotOwner)
    );
    state.provide_liquidity(owner(), token_a(), 1000).unwrap();
    assert!(state.is_closed);
    state.provide_liquidity(owner(), token_b(), 2000).unwrap();
    assert!(!state.is_closed);
    assert_eq!(state.swap_constant, 2_000_000);
    assert_eq!(pools(&state), (1000, 2000));
    assert_eq!(state.provide_liquidity(owner(), token_a(), 1), Err(ZkSwapError::Open));
}

#[test]
fn owner_provision_errors() {
    let mut state = new_state();
    assert_eq!(
        state.provide_liquidity(owner(), token_a(), 1),
        Err(ZkSwapError::InsufficientBalance)
    );
    assert_eq!(
        state.provide_liquidity(owner(), address(AddressType::PublicContract, 9), 1),
        Err(ZkSwapError::UnknownToken)
    );
}

#[test]
fn swap_inputs_are_accepted_only_when_open_and_funded() {
    let mut state = new_state();
    assert_eq!(state.swap(trader(), false).err(), Some(ZkSwapError::Closed));
    state = open_state();
    assert_eq!(state.swap(trader(), false).err(), Some(ZkSwapError::NothingToSwap));
    state.deposit(trader(), token_a(), 100).unwrap();
    let metadata = state.swap(trader(), true).unwrap();
    assert!(metadata.only_if_at_front);
    assert!(!metadata.is_output_variable);
}

#[test]
fn queued_swaps_are_performed_in_order() {
    let mut state = open_state();
    state.deposit(trader(), token_a(), 100).unwrap();
    assert_eq!(state.swap_variable_inputted(trader(), 1, false), Some(1));
    assert_eq!(state.swap_variable_inputted(trader(), 2, false), None);
    assert_eq!(state.swap_variable_inputted(trader(), 3, true), None);
    assert_eq!(state.worklist.len(), 2);
    assert_eq!(state.unused_variables, vec![3]);

    // 100 of A in: ceil(1_000_000 / 1100) = 910 stays, 90 of B out
    let (to_delete, next) = state.swap_opened(10, 100, true).unwrap();
    assert_eq!(to_delete, vec![3, 1, 10]);
    assert_eq!(next, Some(2));
    assert_eq!(pools(&state), (1100, 910));
    let b = state.balances.get_balance(&trader());
    assert_eq!((b.a_tokens, b.b_tokens), (0, 90));

    // the second swap asks for more than the trader holds: no balance changes
    let (to_delete, next) = state.swap_opened(11, 500, true).unwrap();
    assert_eq!(to_delete, vec![2, 11]);
    assert_eq!(next, None);
    assert_eq!(pools(&state), (1100, 910));
    assert_eq!(state.swap_opened(12, 1, true).err(), Some(ZkSwapError::EmptyWorklist));
}

#[test]
fn withdraw_from_the_pool() {
    let mut state = open_state();
    state.deposit(trader(), token_b(), 50).unwrap();
    state.withdraw(trader(), token_b(), 20).unwrap();
    assert_eq!(state.balances.get_balance(&trader()).b_tokens, 30);
    assert_eq!(
        state.withdraw(trader(), token_b(), 31),
        Err(ZkSwapError::InsufficientBalance)
    );
}

#[test]
fn owner_closes_the_pools() {
    let mut state = open_state();
    assert_eq!(state.close_pools(trader()), Err(ZkSwapError::NotOwner));
    state.close_pools(owner()).unwrap();
    assert!(state.is_closed);
    assert_eq!(pools(&state), (0, 0));
    let b = state.balances.get_balance(&owner());
    assert_eq!((b.a_tokens, b.b_tokens), (1000, 1000));
    assert_eq!(state.close_pools(owner()), Err(ZkSwapError::Closed));
}

#[test]
fn token_to_amount_keeps_the_constant_product() {
    let pools = Balance { a_tokens: 1000, b_tokens: 1000, liquidity_tokens: 0 };
    // ceil(1_000_000 / 1100) = 910, so 1000 - 910 = 90 of B
    assert_eq!(calculate_token_to_amount(&pools, 1_000_000, Token::A, Token::B, 100), Ok(90));
    assert_eq!(calculate_token_to_amount(&pools, 1_000_000, Token::B, Token::A, 0), Ok(0));
}

#[test]
fn token_to_amount_errors() {
    let pools = Balance { a_tokens: 1000, b_tokens: 10, liquidity_tokens: 0 };
    assert_eq!(
        calculate_token_to_amount(&pools, 1_000_000, Token::A, Token::B, u128::MAX),
        Err("Overflow in token pool")
    );
    assert_eq!(
        calculate_token_to_amount(&pools, 1_000_000, Token::A, Token::B, 0),
        Err("Underflow in token pool")
    );
    let empty = Balance { a_tokens: 0, b_tokens: 10, liquidity_tokens: 0 };
    assert_eq!(
        calculate_token_to_amount(&empty, 5, Token::A, Token::B, 0),
        Err("Division by zero")
    );
}

#[test]
fn unpriceable_swaps_and_overflowing_deposits_are_refused() {
    let mut state = open_state();
    state.deposit(trader(), token_a(), u128::MAX).unwrap();
    assert_eq!(
        state.perform_swap(trader(), Token::A, Token::B, u128::MAX).err(),
        Some(ZkSwapError::Unpriceable)
    );
    assert_eq!(state.deposit(trader(), token_a(), 1), Err(ZkSwapError::Overflow));
    let balances = state.perform_swap(trader(), Token::A, Token::B, 100).unwrap();
    let p = balances.get_balance(&pool());
    assert_eq!((p.a_tokens, p.b_tokens), (1100, 910));
    assert!(p.a_tokens * p.b_tokens >= state.swap_constant);
}
