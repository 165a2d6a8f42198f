//! The three token slots of a pool and a holder's amounts in each.
use vstd::prelude::*;

verus! {

/// A logical token slot: the two pooled tokens and the pool's liquidity share.
#[derive(Clone, Copy, Debug, PartialEq, Eq, Structural)]
pub enum Token {
    A,
    B,
    Liquidity,
}

/// What one holder owns of each token slot.
#[derive(Clone, Copy, Debug, PartialEq, Eq, Structural)]
pub struct Balance {
    pub a_tokens: u128,
    pub b_tokens: u128,
    pub liquidity_tokens: u128,
}

/// The balance of a holder that owns nothing.
pub open spec fn empty_balance() -> Balance {
    Balance { a_tokens: 0, b_tokens: 0, liquidity_tokens: 0 }
}

impl Balance {
    /// The amount held of `token`.
    pub open spec fn amount(self, token: Token) -> u128 {
        match token {
            Token::A => self.a_tokens,
            Token::B => self.b_tokens,
            Token::Liquidity => self.liquidity_tokens,
        }
    }

    /// This balance with the amount of `token` replaced by `value`.
    pub open spec fn with_amount(self, token: Token, value: u128) -> Balance {
        match token {
            Token::A => Balance { a_tokens: value, ..self },
            Token::B => Balance { b_tokens: value, ..self },
            Token::Liquidity => Balance { liquidity_tokens: value, ..self },
        }
    }

    /// A balance that holds nothing.
    pub fn empty() -> (r: Balance)
        ensures
            r == empty_balance(),
    {
        Balance { a_tokens: 0, b_tokens: 0, liquidity_tokens: 0 }
    }

    /// The balance of the given token.
    pub fn for_token(&self, token: Token) -> (r: u128)
        ensures
            r == self.amount(token),
    {
        match token {
            Token::A => self.a_tokens,
            Token::B => self.b_tokens,
            Token::Liquidity => self.liquidity_tokens,
        }
    }

    /// Replaces the amount held of `token` by `value`.
    pub fn set_for_token(&mut self, token: Token, value: u128)
        ensures
            *final(self) == old(self).with_amount(token, value),
    {
        match token {
            Token::A => self.a_tokens = value,
            Token::B => self.b_tokens = value,
            Token::Liquidity => self.liquidity_tokens = value,
        }
    }

    /// True if nothing is held of any token.
    pub fn is_empty(&self) -> (r: bool)
        ensures
            r == (*self == empty_balance()),
    {
        self.a_tokens == 0 && self.b_tokens == 0 && self.liquidity_tokens == 0
    }
}

} // verus!
