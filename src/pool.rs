//! The pool operations: configuration, deposits and withdrawals, swaps, and the
//! provision and reclaiming of liquidity.
//!
//! Each operation is all or nothing: it either succeeds and moves exactly what
//! its outcome says, or it is refused with an error and leaves the pool as it was.
use vstd::prelude::*;
use crate::address::Address;
use crate::balance::{Balance, Token};
use crate::error::PoolError;
use crate::ledger::{
    PairwiseTokenBalances,
    amount_in,
    deposit_outcome,
    token_pair,
    transfer_outcome,
    withdraw_outcome,
};
use crate::pricing::{
    calculate_equivalent_and_minted_tokens,
    calculate_reclaim_output,
    calculate_swap_to_amount,
    equivalent_output,
    floor_sqrt,
    initial_liquidity_tokens,
    provision_overflows,
    redeemed,
    shares_minted,
    swap_output,
    swap_overflows,
    u128_max,
};

verus! {

/// The largest fee, in per mille, that a pool may charge.
pub const MAX_FEE_PER_MILLE: u16 = 1000;

/// The state of a pool, as a mathematical value.
pub struct PoolModel {
    /// The address under which the pool holds its reserves and its share total.
    pub pool: Address,
    /// The fee kept by the pool on each swap, in per mille.
    pub fee: u16,
    pub token_a: Address,
    pub token_b: Address,
    /// The entries of the ledger.
    pub entries: Seq<(Address, Balance)>,
}

impl PoolModel {
    /// A fee of at most 1000 per mille, and two distinct tokens.
    pub open spec fn valid(self) -> bool {
        self.fee <= MAX_FEE_PER_MILLE && self.token_a != self.token_b
    }

    /// The pool's own amount of `token`: a reserve for A and B, the total of the
    /// minted shares for the liquidity token.
    pub open spec fn reserve(self, token: Token) -> int {
        amount_in(self.entries, self.pool, token)
    }

    /// Both reserves are non-empty.
    pub open spec fn has_liquidity(self) -> bool {
        self.reserve(Token::A) != 0 && self.reserve(Token::B) != 0
    }

    /// This pool with its ledger entries replaced.
    pub open spec fn with_entries(self, entries: Seq<(Address, Balance)>) -> PoolModel {
        PoolModel { entries, ..self }
    }
}

/// Moves the two provided amounts from `user` to the pool, then mints `minted`
/// shares to `user` and to the pool's share total.
pub open spec fn provision_moves(
    s: Seq<(Address, Balance)>,
    user: Address,
    pool: Address,
    token_in: Token,
    token_out: Token,
    amount_in: u128,
    amount_out: u128,
    minted: u128,
) -> Result<Seq<(Address, Balance)>, PoolError> {
    match transfer_outcome(s, user, pool, token_in, amount_in) {
        Err(e) => Err(e),
        Ok(s1) => match transfer_outcome(s1, user, pool, token_out, amount_out) {
            Err(e) => Err(e),
            Ok(s2) => match deposit_outcome(s2, user, Token::Liquidity, minted) {
                Err(e) => Err(e),
                Ok(s3) => deposit_outcome(s3, pool, Token::Liquidity, minted),
            },
        },
    }
}

/// The outcome of a swap of `amount_in` of the token at `token_in` by `user`:
/// the new pool and the amount paid out.
pub open spec fn swap_outcome(
    m: PoolModel,
    user: Address,
    token_in: Address,
    amount_in: u128,
    amount_out_minimum: u128,
) -> Result<(PoolModel, u128), PoolError> {
    if !m.has_liquidity() {
        Err(PoolError::PoolNotLiquid)
    } else {
        match token_pair(m.token_a, m.token_b, token_in) {
            None => Err(PoolError::UnknownToken),
            Some((tin, tout)) => {
                let rin = m.reserve(tin);
                let rout = m.reserve(tout);
                if swap_overflows(rin, rout, amount_in as int, m.fee as int) {
                    Err(PoolError::Overflow)
                } else {
                    let out = swap_output(rin, rout, amount_in as int, m.fee as int) as u128;
                    if out < amount_out_minimum {
                        Err(PoolError::SlippageExceeded)
                    } else {
                        match transfer_outcome(m.entries, user, m.pool, tin, amount_in) {
                            Err(e) => Err(e),
                            Ok(s1) => match transfer_outcome(s1, m.pool, user, tout, out) {
                                Err(e) => Err(e),
                                Ok(s2) => Ok((m.with_entries(s2), out)),
                            },
                        }
                    }
                }
            },
        }
    }
}

/// The outcome of `user` providing `amount` of the token at `token_address`
/// together with its equivalent in the other token: the new pool and the shares
/// minted.
pub open spec fn provide_outcome(m: PoolModel, user: Address, token_address: Address, amount: u128) -> Result<
    (PoolModel, u128),
    PoolError,
> {
    match token_pair(m.token_a, m.token_b, token_address) {
        None => Err(PoolError::UnknownToken),
        Some((tin, tout)) => {
            let rin = m.reserve(tin);
            let rout = m.reserve(tout);
            let total = m.reserve(Token::Liquidity);
            if rin == 0 {
                Err(PoolError::ZeroLiquidityMinted)
            } else if provision_overflows(amount as int, rin, rout, total) {
                Err(PoolError::Overflow)
            } else {
                let equivalent = equivalent_output(amount as int, rin, rout) as u128;
                let minted = shares_minted(amount as int, rin, total) as u128;
                if minted == 0 {
                    Err(PoolError::ZeroLiquidityMinted)
                } else {
                    match provision_moves(m.entries, user, m.pool, tin, tout, amount, equivalent, minted) {
                        Err(e) => Err(e),
                        Ok(s) => Ok((m.with_entries(s), minted)),
                    }
                }
            }
        },
    }
}

/// The outcome of `user` seeding an illiquid pool with `amount_a` of token A and
/// `amount_b` of token B: the new pool and the shares minted.
pub open spec fn provide_initial_outcome(m: PoolModel, user: Address, amount_a: u128, amount_b: u128) -> Result<
    (PoolModel, u128),
    PoolError,
> {
    if m.has_liquidity() {
        Err(PoolError::AlreadyLiquid)
    } else if amount_a * amount_b > u128_max() {
        Err(PoolError::Overflow)
    } else {
        let minted = floor_sqrt((amount_a * amount_b) as nat) as u128;
        if minted == 0 {
            Err(PoolError::ZeroLiquidityMinted)
        } else {
            match provision_moves(m.entries, user, m.pool, Token::A, Token::B, amount_a, amount_b, minted) {
                Err(e) => Err(e),
                Ok(s) => Ok((m.with_entries(s), minted)),
            }
        }
    }
}

/// The amounts of A and B that burning `shares` redeems, against the pool `s`
/// describes; nothing when no shares are outstanding.
pub open spec fn reclaim_amounts(s: Seq<(Address, Balance)>, pool: Address, shares: u128) -> (int, int) {
    let total = amount_in(s, pool, Token::Liquidity);
    if total == 0 {
        (0, 0)
    } else {
        (
            redeemed(shares as int, amount_in(s, pool, Token::A), total),
            redeemed(shares as int, amount_in(s, pool, Token::B), total),
        )
    }
}

/// Whether computing the redeemed amounts leaves the range of `u128`.
pub open spec fn reclaim_overflows(s: Seq<(Address, Balance)>, pool: Address, shares: u128) -> bool {
    amount_in(s, pool, Token::Liquidity) != 0 && (amount_in(s, pool, Token::A) * shares > u128_max()
        || amount_in(s, pool, Token::B) * shares > u128_max())
}

/// The outcome of `user` burning `shares` of its liquidity shares: the new pool
/// and the amounts of A and B paid out.
pub open spec fn reclaim_outcome(m: PoolModel, user: Address, shares: u128) -> Result<
    (PoolModel, (u128, u128)),
    PoolError,
> {
    match withdraw_outcome(m.entries, user, Token::Liquidity, shares) {
        Err(e) => Err(e),
        Ok(s1) => if reclaim_overflows(s1, m.pool, shares) {
            Err(PoolError::Overflow)
        } else {
            let a_out = reclaim_amounts(s1, m.pool, shares).0 as u128;
            let b_out = reclaim_amounts(s1, m.pool, shares).1 as u128;
            match transfer_outcome(s1, m.pool, user, Token::A, a_out) {
                Err(e) => Err(e),
                Ok(s2) => match transfer_outcome(s2, m.pool, user, Token::B, b_out) {
                    Err(e) => Err(e),
                    Ok(s3) => match withdraw_outcome(s3, m.pool, Token::Liquidity, shares) {
                        Err(e) => Err(e),
                        Ok(s4) => Ok((m.with_entries(s4), (a_out, b_out))),
                    },
                },
            }
        },
    }
}

/// The outcome of the confirmation of a deposit of `amount` of `token` by `user`.
/// Only the two pooled tokens are deposited; shares are only minted.
pub open spec fn deposit_callback_outcome(m: PoolModel, user: Address, success: bool, token: Token, amount: u128) -> Result<
    PoolModel,
    PoolError,
> {
    if token == Token::Liquidity {
        Err(PoolError::UnknownToken)
    } else if !success {
        Err(PoolError::TransferFailed)
    } else {
        match deposit_outcome(m.entries, user, token, amount) {
            Err(e) => Err(e),
            Ok(s) => Ok(m.with_entries(s)),
        }
    }
}

/// The outcome of `user` withdrawing `amount` of the token at `token_address`.
pub open spec fn withdraw_pool_outcome(m: PoolModel, user: Address, token_address: Address, amount: u128) -> Result<
    PoolModel,
    PoolError,
> {
    match token_pair(m.token_a, m.token_b, token_address) {
        None => Err(PoolError::UnknownToken),
        Some((tin, _)) => match withdraw_outcome(m.entries, user, tin, amount) {
            Err(e) => Err(e),
            Ok(s) => Ok(m.with_entries(s)),
        },
    }
}

/// A transfer for a token contract to make on behalf of the pool: `amount` from
/// `sender` to `receiver`, on the contract at `token_contract`.
#[derive(Clone, Copy, Debug)]
pub struct TransferRequest {
    pub token_contract: Address,
    pub sender: Address,
    pub receiver: Address,
    pub amount: u128,
}

/// A deposit under way: once the token contract has made `transfer`, the pool
/// credits `amount` of `token` to the transfer's sender.
#[derive(Clone, Copy, Debug)]
pub struct PendingDeposit {
    pub transfer: TransferRequest,
    pub token: Token,
    pub amount: u128,
}

/// A constant-product pool between two tokens, with its ledger.
pub struct LiquiditySwapContractState {
    /// The address of the pool itself.
    pub liquidity_pool_address: Address,
    /// The fee for making swaps, in per mille: 3 is a fee of 0.3%.
    pub swap_fee_per_mille: u16,
    /// The balances of all holders and of the pool itself.
    pub token_balances: PairwiseTokenBalances,
}

impl View for LiquiditySwapContractState {
    type V = PoolModel;

    open spec fn view(&self) -> PoolModel {
        PoolModel {
            pool: self.liquidity_pool_address,
            fee: self.swap_fee_per_mille,
            token_a: self.token_balances.token_a,
            token_b: self.token_balances.token_b,
            entries: self.token_balances.entries(),
        }
    }
}

impl LiquiditySwapContractState {
    /// A pool at `pool_address` between the tokens at `token_a_address` and
    /// `token_b_address`, with an empty ledger.
    pub fn initialize(
        pool_address: Address,
        token_a_address: Address,
        token_b_address: Address,
        swap_fee_per_mille: u16,
    ) -> (r: Result<LiquiditySwapContractState, PoolError>)
        ensures
            r is Err <==> swap_fee_per_mille > MAX_FEE_PER_MILLE || token_a_address
                == token_b_address,
            r matches Err(e) ==> e == PoolError::InvalidConfiguration,
            r matches Ok(state) ==> state@ == (PoolModel {
                pool: pool_address,
                fee: swap_fee_per_mille,
                token_a: token_a_address,
                token_b: token_b_address,
                entries: Seq::empty(),
            }),
    {
        let state = LiquiditySwapContractState {
            liquidity_pool_address: pool_address,
            swap_fee_per_mille,
            token_balances: PairwiseTokenBalances::new(token_a_address, token_b_address),
        };
        if state.is_valid() {
            Ok(state)
        } else {
            Err(PoolError::InvalidConfiguration)
        }
    }

    /// Whether the fee is in range and the two tokens differ.
    pub fn is_valid(&self) -> (r: bool)
        ensures
            r == self@.valid(),
    {
        self.is_valid_or_reason().is_ok()
    }

    /// Whether the state is valid, and if not, why.
    pub fn is_valid_or_reason(&self) -> (r: Result<(), &'static str>)
        ensures
            r is Ok <==> self@.valid(),
    {
        if self.token_balances.token_a == self.token_balances.token_b {
            return Err("Token A and token B must be different tokens");
        }
        if self.swap_fee_per_mille > MAX_FEE_PER_MILLE {
            return Err("Swap fee must be in range [0,1000]");
        }
        Ok(())
    }

    /// Whether both reserves of the pool are non-empty.
    pub fn contract_pools_have_liquidity(&self) -> (r: bool)
        ensures
            r == self@.has_liquidity(),
    {
        let pool_balance = self.token_balances.get_balance(&self.liquidity_pool_address);
        pool_balance.a_tokens != 0 && pool_balance.b_tokens != 0
    }

    /// What `user` holds; nothing for an unknown holder.
    pub fn get_balance(&self, user: &Address) -> (r: Balance)
        ensures
            r.amount(Token::A) == amount_in(self@.entries, *user, Token::A),
            r.amount(Token::B) == amount_in(self@.entries, *user, Token::B),
            r.amount(Token::Liquidity) == amount_in(self@.entries, *user, Token::Liquidity),
    {
        self.token_balances.get_balance(user)
    }

    /// Starts a deposit of `amount` of the token at `token_address` by `sender`.
    /// Nothing is credited yet: the returned transfer must first be made by the
    /// token contract, and its result handed to `deposit_callback`.
    pub fn deposit(&self, sender: Address, token_address: Address, amount: u128) -> (r: Result<
        PendingDeposit,
        PoolError,
    >)
        ensures
            r is Err <==> token_pair(self@.token_a, self@.token_b, token_address) is None,
            r matches Err(e) ==> e == PoolError::UnknownToken,
            r matches Ok(pending) ==> {
                &&& token_pair(self@.token_a, self@.token_b, token_address) == Some(
                    (pending.token, if pending.token == Token::A { Token::B } else { Token::A }),
                )
                &&& pending.amount == amount
                &&& pending.transfer == (TransferRequest {
                    token_contract: token_address,
                    sender,
                    receiver: self@.pool,
                    amount,
                })
            },
    {
        match self.token_balances.deduce_from_to_tokens(&token_address) {
            None => Err(PoolError::UnknownToken),
            Some((token, _)) => Ok(
                PendingDeposit {
                    transfer: TransferRequest {
                        token_contract: token_address,
                        sender,
                        receiver: self.liquidity_pool_address,
                        amount,
                    },
                    token,
                    amount,
                },
            ),
        }
    }

    /// Completes a deposit: credits `amount` of `token` to `sender` if the token
    /// contract's transfer succeeded.
    pub fn deposit_callback(&mut self, sender: Address, success: bool, token: Token, amount: u128) -> (r:
        Result<(), PoolError>)
        ensures
            match deposit_callback_outcome(old(self)@, sender, success, token, amount) {
                Ok(m) => r is Ok && final(self)@ == m,
                Err(e) => r == Err::<(), PoolError>(e) && final(self)@ == old(self)@,
            },
    {
        if token == Token::Liquidity {
            return Err(PoolError::UnknownToken);
        }
        if !success {
            return Err(PoolError::TransferFailed);
        }
        self.token_balances.deposit_to_user_balance(sender, token, amount)
    }

    /// Withdraws `amount` of the token at `token_address` from `sender`'s balance.
    /// The balance is debited at once; the returned transfer, to be made by the
    /// token contract, is not waited for.
    pub fn withdraw(&mut self, sender: Address, token_address: Address, amount: u128) -> (r: Result<
        TransferRequest,
        PoolError,
    >)
        ensures
            match withdraw_pool_outcome(old(self)@, sender, token_address, amount) {
                Ok(m) => final(self)@ == m && r == Ok::<TransferRequest, PoolError>(
                    TransferRequest {
                        token_contract: token_address,
                        sender: old(self)@.pool,
                        receiver: sender,
                        amount,
                    },
                ),
                Err(e) => r == Err::<TransferRequest, PoolError>(e) && final(self)@ == old(self)@,
            },
    {
        let (token, _) = match self.token_balances.deduce_from_to_tokens(&token_address) {
            None => return Err(PoolError::UnknownToken),
            Some(pair) => pair,
        };
        match self.token_balances.withdraw_from_user_balance(&sender, token, amount) {
            Err(e) => Err(e),
            Ok(()) => Ok(
                TransferRequest {
                    token_contract: token_address,
                    sender: self.liquidity_pool_address,
                    receiver: sender,
                    amount,
                },
            ),
        }
    }

    /// Swaps `amount_in` of the token at `token_in` from `sender`'s balance for the
    /// other token, at the price of the fee-adjusted constant-product formula.
    /// Returns the amount paid out.
    pub fn swap(&mut self, sender: Address, token_in: Address, amount_in: u128, amount_out_minimum: u128) -> (r:
        Result<u128, PoolError>)
        requires
            old(self)@.valid(),
        ensures
            match swap_outcome(old(self)@, sender, token_in, amount_in, amount_out_minimum) {
                Ok((m, out)) => r == Ok::<u128, PoolError>(out) && final(self)@ == m,
                Err(e) => r == Err::<u128, PoolError>(e) && final(self)@ == old(self)@,
            },
    {
        if !self.contract_pools_have_liquidity() {
            return Err(PoolError::PoolNotLiquid);
        }
        let (tin, tout) = match self.token_balances.deduce_from_to_tokens(&token_in) {
            None => return Err(PoolError::UnknownToken),
            Some(pair) => pair,
        };
        let pool = self.liquidity_pool_address;
        let pool_balance = self.token_balances.get_balance(&pool);
        let amount_out = match calculate_swap_to_amount(
            pool_balance.for_token(tin),
            pool_balance.for_token(tout),
            amount_in,
            self.swap_fee_per_mille,
        ) {
            Err(e) => return Err(e),
            Ok(v) => v,
        };
        if amount_out < amount_out_minimum {
            return Err(PoolError::SlippageExceeded);
        }
        let mut ledger = self.token_balances.duplicate();
        if let Err(e) = ledger.transfer_from_to(&sender, pool, tin, amount_in) {
            return Err(e);
        }
        if let Err(e) = ledger.transfer_from_to(&pool, sender, tout, amount_out) {
            return Err(e);
        }
        self.token_balances = ledger;
        Ok(amount_out)
    }

    /// Moves the provided amounts from `user` to the pool and mints `minted`
    /// shares to `user` and to the pool's share total; all or nothing.
    fn provide_liquidity_internal(
        &mut self,
        user: &Address,
        tokens: (Token, Token),
        token_in_amount: u128,
        token_out_amount: u128,
        minted_liquidity_tokens: u128,
    ) -> (r: Result<(), PoolError>)
        ensures
            match provision_moves(
                old(self)@.entries,
                *user,
                old(self)@.pool,
                tokens.0,
                tokens.1,
                token_in_amount,
                token_out_amount,
                minted_liquidity_tokens,
            ) {
                Ok(s) => r is Ok && final(self)@ == old(self)@.with_entries(s),
                Err(e) => r == Err::<(), PoolError>(e) && final(self)@ == old(self)@,
            },
    {
        let pool = self.liquidity_pool_address;
        let mut ledger = self.token_balances.duplicate();
        if let Err(e) = ledger.transfer_from_to(user, pool, tokens.0, token_in_amount) {
            return Err(e);
        }
        if let Err(e) = ledger.transfer_from_to(user, pool, tokens.1, token_out_amount) {
            return Err(e);
        }
        if let Err(e) = ledger.deposit_to_user_balance(*user, Token::Liquidity, minted_liquidity_tokens) {
            return Err(e);
        }
        if let Err(e) = ledger.deposit_to_user_balance(pool, Token::Liquidity, minted_liquidity_tokens) {
            return Err(e);
        }
        self.token_balances = ledger;
        Ok(())
    }

    /// Provides `amount` of the token at `token_address` from `sender`'s balance,
    /// together with the equivalent amount of the other token, and mints shares
    /// for it. Returns the shares minted.
    pub fn provide_liquidity(&mut self, sender: Address, token_address: Address, amount: u128) -> (r:
        Result<u128, PoolError>)
        ensures
            match provide_outcome(old(self)@, sender, token_address, amount) {
                Ok((m, minted)) => r == Ok::<u128, PoolError>(minted) && final(self)@ == m,
                Err(e) => r == Err::<u128, PoolError>(e) && final(self)@ == old(self)@,
            },
    {
        let tokens = match self.token_balances.deduce_from_to_tokens(&token_address) {
            None => return Err(PoolError::UnknownToken),
            Some(pair) => pair,
        };
        let pool_balance = self.token_balances.get_balance(&self.liquidity_pool_address);
        let reserve_in = pool_balance.for_token(tokens.0);
        if reserve_in == 0 {
            return Err(PoolError::ZeroLiquidityMinted);
        }
        let (token_out_equivalent, minted_liquidity_tokens) = match calculate_equivalent_and_minted_tokens(
            amount,
            reserve_in,
            pool_balance.for_token(tokens.1),
            pool_balance.liquidity_tokens,
        ) {
            Err(e) => return Err(e),
            Ok(v) => v,
        };
        if minted_liquidity_tokens == 0 {
            return Err(PoolError::ZeroLiquidityMinted);
        }
        match self.provide_liquidity_internal(
            &sender,
            tokens,
            amount,
            token_out_equivalent,
            minted_liquidity_tokens,
        ) {
            Err(e) => Err(e),
            Ok(()) => Ok(minted_liquidity_tokens),
        }
    }

    /// Seeds an illiquid pool with `token_a_amount` of token A and
    /// `token_b_amount` of token B from `sender`'s balance, and mints the
    /// square root of their product in shares. Returns the shares minted.
    pub fn provide_initial_liquidity(&mut self, sender: Address, token_a_amount: u128, token_b_amount: u128) -> (r:
        Result<u128, PoolError>)
        ensures
            match provide_initial_outcome(old(self)@, sender, token_a_amount, token_b_amount) {
                Ok((m, minted)) => r == Ok::<u128, PoolError>(minted) && final(self)@ == m,
                Err(e) => r == Err::<u128, PoolError>(e) && final(self)@ == old(self)@,
            },
    {
        if self.contract_pools_have_liquidity() {
            return Err(PoolError::AlreadyLiquid);
        }
        let minted_liquidity_tokens = match initial_liquidity_tokens(token_a_amount, token_b_amount) {
            Err(e) => return Err(e),
            Ok(v) => v,
        };
        if minted_liquidity_tokens == 0 {
            return Err(PoolError::ZeroLiquidityMinted);
        }
        match self.provide_liquidity_internal(
            &sender,
            (Token::A, Token::B),
            token_a_amount,
            token_b_amount,
            minted_liquidity_tokens,
        ) {
            Err(e) => Err(e),
            Ok(()) => Ok(minted_liquidity_tokens),
        }
    }

    /// Burns `liquidity_token_amount` of `sender`'s shares and pays out its
    /// proportional part of both reserves, rounded down. Returns the amounts of A
    /// and B paid out.
    pub fn reclaim_liquidity(&mut self, sender: Address, liquidity_token_amount: u128) -> (r: Result<
        (u128, u128),
        PoolError,
    >)
        ensures
            match reclaim_outcome(old(self)@, sender, liquidity_token_amount) {
                Ok((m, outputs)) => r == Ok::<(u128, u128), PoolError>(outputs) && final(self)@ == m,
                Err(e) => r == Err::<(u128, u128), PoolError>(e) && final(self)@ == old(self)@,
            },
    {
        let pool = self.liquidity_pool_address;
        let mut ledger = self.token_balances.duplicate();
        if let Err(e) = ledger.withdraw_from_user_balance(&sender, Token::Liquidity, liquidity_token_amount) {
            return Err(e);
        }
        let pool_balance = ledger.get_balance(&pool);
        let (a_output, b_output) = if pool_balance.liquidity_tokens == 0 {
            (0, 0)
        } else {
            match calculate_reclaim_output(
                liquidity_token_amount,
                pool_balance.a_tokens,
                pool_balance.b_tokens,
                pool_balance.liquidity_tokens,
            ) {
                Err(e) => return Err(e),
                Ok(v) => v,
            }
        };
        if let Err(e) = ledger.transfer_from_to(&pool, sender, Token::A, a_output) {
            return Err(e);
        }
        if let Err(e) = ledger.transfer_from_to(&pool, sender, Token::B, b_output) {
            return Err(e);
        }
        if let Err(e) = ledger.withdraw_from_user_balance(&pool, Token::Liquidity, liquidity_token_amount) {
            return Err(e);
        }
        self.token_balances = ledger;
        Ok((a_output, b_output))
    }
}

} // verus!
