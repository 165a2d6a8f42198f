use liquidity_pool::address::{Address, AddressType};
use liquidity_pool::balance::{Balance, Token};
use liquidity_pool::error::PoolError;
use liquidity_pool::ledger::PairwiseTokenBalances;

fn holder(n: u8) -> Address {
    let mut identifier = [0u8; 20];
    identifier[0] = n;
    Address { address_type: AddressType::Account, identifier }
}

fn ledger() -> PairwiseTokenBalances {
    let a = Address { address_type: AddressType::PublicContract, identifier: [1u8; 20] };
    let b = Address { address_type: AddressType::PublicContract, identifier: [2u8; 20] };
    PairwiseTokenBalances::new(a, b)
}

#[test]
fn unknown_holders_own_nothing() {
    let l = ledger();
    assert!(l.get_balance(&holder(3)).is_empty());
    assert_eq!(l.get_balance(&holder(3)).for_token(Token::Liquidity), 0);
}

#[test]
fn deposits_add_up_per_token() {
    let mut l = ledger();
    l.deposit_to_user_balance(holder(1), Token::A, 10).unwrap();
    l.deposit_to_user_balance(holder(1), Token::A, 5).unwrap();
    l.deposit_to_user_balance(holder(1), Token::Liquidity, 7).unwrap();
    l.deposit_to_user_balance(holder(2), Token::B, 3).unwrap();
    assert_eq!(
        l.get_balance(&holder(1)),
        Balance { a_tokens: 15, b_tokens: 0, liquidity_tokens: 7 }
    );
    assert_eq!(l.get_balance(&holder(2)).for_token(Token::B), 3);
    assert_eq!(l.balances.len(), 2);
}

#[test]
fn withdrawals_are_checked() {
    let mut l = ledger();
    l.deposit_to_user_balance(holder(1), Token::B, 10).unwrap();
    assert_eq!(
        l.withdraw_from_user_balance(&holder(1), Token::B, 11),
        Err(PoolError::InsufficientBalance)
    );
    assert_eq!(
        l.withdraw_from_user_balance(&holder(2), Token::B, 1),
        Err(PoolError::InsufficientBalance)
    );
    l.withdraw_from_user_balance(&holder(1), Token::B, 10).unwrap();
    assert!(l.get_balance(&holder(1)).is_empty());
}

#[test]
fn transfers_are_all_or_nothing() {
    let mut l = ledger();
    l.deposit_to_user_balance(holder(1), Token::A, 10).unwrap();
    l.deposit_to_user_balance(holder(2), Token::A, u128::MAX).unwrap();
    assert_eq!(
        l.transfer_from_to(&holder(1), holder(2), Token::A, 1),
        Err(PoolError::Overflow)
    );
    assert_eq!(l.get_balance(&holder(1)).a_tokens, 10);
    assert_eq!(
        l.transfer_from_to(&holder(1), holder(3), Token::A, 11),
        Err(PoolError::InsufficientBalance)
    );
    l.transfer_from_to(&holder(1), holder(3), Token::A, 4).unwrap();
    assert_eq!(l.get_balance(&holder(1)).a_tokens, 6);
    assert_eq!(l.get_balance(&holder(3)).a_tokens, 4);
}

#[test]
fn transfer_to_oneself_changes_nothing() {
    let mut l = ledger();
    l.deposit_to_user_balance(holder(1), Token::A, u128::MAX).unwrap();
    l.transfer_from_to(&holder(1), holder(1), Token::A, 100).unwrap();
    assert_eq!(l.get_balance(&holder(1)).a_tokens, u128::MAX);
}

#[test]
fn token_addresses_give_the_pair() {
    let l = ledger();
    assert_eq!(l.deduce_from_to_tokens(&l.token_a), Some((Token::A, Token::B)));
    assert_eq!(l.deduce_from_to_tokens(&l.token_b), Some((Token::B, Token::A)));
    assert_eq!(l.deduce_from_to_tokens(&holder(1)), None);
    assert_eq!(l.deduce_from_to_tokens_b(false), (Token::B, Token::A));
}

#[test]
fn addresses_compare_by_kind_and_identifier() {
    let a = holder(1);
    let mut b = holder(1);
    assert_eq!(a, b);
    b.identifier[19] = 9;
    assert_ne!(a, b);
    let c = Address { address_type: AddressType::Gov, identifier: a.identifier };
    assert_ne!(a, c);
}
