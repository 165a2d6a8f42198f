//! A pool whose swaps arrive as secret inputs and are priced against a fixed
//! constant product: its owner seeds and closes it, swaps wait in a queue until
//! their amount and direction are known, and each is then performed so that the
//! product of the pools stays at least the constant.
use vstd::prelude::*;
use std::collections::VecDeque;
use crate::address::Address;
use crate::address::AddressType;
use crate::balance::{Balance, Token, empty_balance};
use crate::error::PoolError;
use crate::ledger::{
    PairwiseTokenBalances,
    amount_in,
    balance_in,
    deposit_outcome,
    lemma_index_of_range,
    lemma_transfer_effect,
    token_pair,
    transfer_outcome,
    withdraw_outcome,
};
use crate::pricing::{ceil_div, u128_division_ceil, u128_max};

verus! {

/// What is recorded of each secret variable.
#[derive(Clone, Copy, Debug, PartialEq, Eq, Structural)]
pub struct SecretVarMetadata {
    /// Whether the variable is the output of a computation rather than an input.
    pub is_output_variable: bool,
    /// A swap input marked so is only performed if it is first in the queue when
    /// it arrives; otherwise it is discarded.
    pub only_if_at_front: bool,
}

/// A pending swap: the secret variable that holds its amount and direction, and
/// who sent it.
#[derive(Clone, Copy, Debug)]
pub struct WorklistEntry {
    pub variable_id: u32,
    pub sender: Address,
}

/// How much of `token_to` a swap of `sent` of `token_from` pays out against the
/// pools `pools`, keeping their product at least `swap_constant`: the output pool
/// is left at `swap_constant` over the new input pool, rounded up.
pub open spec fn token_to_amount(pools: Balance, swap_constant: u128, token_from: Token, token_to: Token, sent: u128) -> int {
    pools.amount(token_to) - ceil_div(swap_constant as int, pools.amount(token_from) + sent)
}

/// The amount of `token_to` that `token_from_sent_amount` of `token_from` buys
/// against the pools `pools` and the constant product `swap_constant`.
pub fn calculate_token_to_amount(
    pools: &Balance,
    swap_constant: u128,
    token_from: Token,
    token_to: Token,
    token_from_sent_amount: u128,
) -> (r: Result<u128, &'static str>)
    ensures
        ({
            let new_from = pools.amount(token_from) + token_from_sent_amount;
            &&& new_from > u128_max() ==> (r matches Err(e) && e@ == "Overflow in token pool"@)
            &&& new_from == 0 ==> (r matches Err(e) && e@ == "Division by zero"@)
            &&& 0 < new_from <= u128_max() && token_to_amount(
                *pools,
                swap_constant,
                token_from,
                token_to,
                token_from_sent_amount,
            ) < 0 ==> (r matches Err(e) && e@ == "Underflow in token pool"@)
            &&& 0 < new_from <= u128_max() && token_to_amount(
                *pools,
                swap_constant,
                token_from,
                token_to,
                token_from_sent_amount,
            ) >= 0 ==> r == Ok::<u128, &'static str>(
                token_to_amount(*pools, swap_constant, token_from, token_to, token_from_sent_amount)
                    as u128,
            )
        }),
{
    let from_pool_value = pools.for_token(token_from);
    let to_pool_value = pools.for_token(token_to);
    let new_from_pool_value = match from_pool_value.checked_add(token_from_sent_amount) {
        Some(v) => v,
        None => return Err("Overflow in token pool"),
    };
    let new_to_pool_value = match u128_division_ceil(swap_constant, new_from_pool_value) {
        Ok(v) => v,
        Err(e) => return Err(e),
    };
    match to_pool_value.checked_sub(new_to_pool_value) {
        Some(v) => Ok(v),
        None => Err("Underflow in token pool"),
    }
}

/// Why an operation on the pool was refused. A refused operation leaves the
/// pool unchanged.
#[derive(Clone, Copy, Debug, PartialEq, Eq, Structural)]
pub enum ZkSwapError {
    /// A token address is not that of a public contract.
    NotPublicContract,
    /// The two token addresses are the same.
    DuplicateTokens,
    /// Only the owner of the pool may do this.
    NotOwner,
    /// The pool is closed.
    Closed,
    /// The pool is open; this can only be done while it is closed.
    Open,
    /// The token address is neither of the pool's two tokens.
    UnknownToken,
    /// The sender holds nothing to swap with.
    NothingToSwap,
    /// A holder was asked for more than it holds.
    InsufficientBalance,
    /// An amount would leave the range of `u128`.
    Overflow,
    /// No swap is waiting for its result.
    EmptyWorklist,
    /// The swap cannot be priced against the pools.
    Unpriceable,
}

/// The ledger's refusal, as a refusal of the pool.
pub open spec fn ledger_error(e: PoolError) -> ZkSwapError {
    if e == PoolError::Overflow {
        ZkSwapError::Overflow
    } else {
        ZkSwapError::InsufficientBalance
    }
}

fn from_ledger_error(e: PoolError) -> (r: ZkSwapError)
    ensures
        r == ledger_error(e),
{
    if e == PoolError::Overflow {
        ZkSwapError::Overflow
    } else {
        ZkSwapError::InsufficientBalance
    }
}

/// A pool that is seeded and closed by its owner, and whose swaps arrive as
/// secret inputs, are queued, and are performed one at a time against the
/// constant product fixed when the pool opened.
pub struct ContractState {
    /// The owner of the pool.
    pub contract_owner: Address,
    /// The address under which the pools are held in the ledger.
    pub token_pool_address: Address,
    /// The product of the pools when the pool opened; swaps keep the product at
    /// least this.
    pub swap_constant: u128,
    /// While closed, only the owner may deposit, and no swap is accepted.
    pub is_closed: bool,
    /// The balances of all holders and of the pools.
    pub balances: PairwiseTokenBalances,
    /// The swaps waiting to be performed, first one first.
    pub worklist: VecDeque<WorklistEntry>,
    /// Variables left over, to be deleted with the next completed swap.
    pub unused_variables: Vec<u32>,
}

/// The ledger after `sender` swaps `amount` of `token_from` for `token_to`
/// against the pools held at `pool` and the constant product `swap_constant`.
pub open spec fn perform_swap_outcome(
    s: Seq<(Address, Balance)>,
    pool: Address,
    swap_constant: u128,
    sender: Address,
    token_from: Token,
    token_to: Token,
    amount: u128,
) -> Result<Seq<(Address, Balance)>, ZkSwapError> {
    let pools = balance_in(s, pool);
    let new_from = pools.amount(token_from) + amount;
    if new_from > u128_max() || new_from == 0 || token_to_amount(
        pools,
        swap_constant,
        token_from,
        token_to,
        amount,
    ) < 0 {
        Err(ZkSwapError::Unpriceable)
    } else {
        let out = token_to_amount(pools, swap_constant, token_from, token_to, amount) as u128;
        match transfer_outcome(s, sender, pool, token_from, amount) {
            Err(e) => Err(ledger_error(e)),
            Ok(s1) => match transfer_outcome(s1, pool, sender, token_to, out) {
                Err(e) => Err(ledger_error(e)),
                Ok(s2) => Ok(s2),
            },
        }
    }
}

proof fn lemma_ceil_div_product(k: int, n: int)
    requires
        k >= 0,
        n > 0,
    ensures
        n * ceil_div(k, n) >= k,
{
    vstd::arithmetic::div_mod::lemma_fundamental_div_mod(k, n);
    vstd::arithmetic::div_mod::lemma_mod_bound(k, n);
    assert(n * ceil_div(k, n) >= k) by (nonlinear_arith)
        requires
            k == n * (k / n) + k % n,
            0 <= k % n < n,
            ceil_div(k, n) == if k % n == 0 {
                k / n
            } else {
                k / n + 1
            },
    ;
}

/// A swap by a holder other than the pool leaves the product of the pools at
/// least the swap constant.
pub proof fn lemma_swap_keeps_swap_constant(
    s: Seq<(Address, Balance)>,
    pool: Address,
    swap_constant: u128,
    sender: Address,
    from_a: bool,
    amount: u128,
)
    requires
        sender != pool,
    ensures
        ({
            let (token_from, token_to) = if from_a {
                (Token::A, Token::B)
            } else {
                (Token::B, Token::A)
            };
            perform_swap_outcome(s, pool, swap_constant, sender, token_from, token_to, amount) matches Ok(s2)
                ==> balance_in(s2, pool).a_tokens * balance_in(s2, pool).b_tokens >= swap_constant
        }),
{
    let (token_from, token_to) = if from_a {
        (Token::A, Token::B)
    } else {
        (Token::B, Token::A)
    };
    if perform_swap_outcome(s, pool, swap_constant, sender, token_from, token_to, amount) is Ok {
        let pools = balance_in(s, pool);
        let new_from = pools.amount(token_from) + amount;
        let out = token_to_amount(pools, swap_constant, token_from, token_to, amount) as u128;
        let s1 = transfer_outcome(s, sender, pool, token_from, amount)->Ok_0;
        let s2 = transfer_outcome(s1, pool, sender, token_to, out)->Ok_0;
        lemma_transfer_effect(s, sender, pool, token_from, amount, s1);
        lemma_transfer_effect(s1, pool, sender, token_to, out, s2);
        assert(amount_in(s2, pool, token_from) == amount_in(s1, pool, token_from));
        assert(amount_in(s1, pool, token_from) == amount_in(s, pool, token_from) + amount);
        assert(amount_in(s2, pool, token_to) == amount_in(s1, pool, token_to) - out);
        assert(amount_in(s1, pool, token_to) == amount_in(s, pool, token_to));
        let new_to = ceil_div(swap_constant as int, new_from);
        lemma_ceil_div_product(swap_constant as int, new_from);
        assert(amount_in(s2, pool, token_to) == new_to);
        if from_a {
            assert(balance_in(s2, pool).a_tokens * balance_in(s2, pool).b_tokens == new_from * new_to);
        } else {
            assert(balance_in(s2, pool).a_tokens * balance_in(s2, pool).b_tokens == new_to * new_from);
            assert(new_to * new_from == new_from * new_to) by (nonlinear_arith);
        }
    }
}

impl ContractState {
    /// The pools: what the pool address holds.
    pub open spec fn pools(&self) -> Balance {
        balance_in(self.balances.entries(), self.token_pool_address)
    }

    /// The product of the two pools.
    pub open spec fn pool_product(&self) -> int {
        self.pools().a_tokens * self.pools().b_tokens
    }

    /// A closed pool between the public contracts `token_a_address` and
    /// `token_b_address`, owned by `sender`.
    pub fn initialize(
        contract_address: Address,
        sender: Address,
        token_a_address: Address,
        token_b_address: Address,
    ) -> (r: Result<ContractState, ZkSwapError>)
        ensures
            token_a_address.address_type != AddressType::PublicContract
                || token_b_address.address_type != AddressType::PublicContract ==> r
                == Err::<ContractState, ZkSwapError>(ZkSwapError::NotPublicContract),
            token_a_address.address_type == AddressType::PublicContract
                && token_b_address.address_type == AddressType::PublicContract
                && token_a_address == token_b_address ==> r == Err::<ContractState, ZkSwapError>(
                ZkSwapError::DuplicateTokens,
            ),
            token_a_address.address_type == AddressType::PublicContract
                && token_b_address.address_type == AddressType::PublicContract
                && token_a_address != token_b_address ==> r is Ok,
            r matches Ok(state) ==> {
                &&& token_a_address != token_b_address
                &&& state.contract_owner == sender
                &&& state.token_pool_address == contract_address
                &&& state.swap_constant == 0
                &&& state.is_closed
                &&& state.balances.token_a == token_a_address
                &&& state.balances.token_b == token_b_address
                &&& state.balances.entries() == seq![(contract_address, empty_balance())]
                &&& state.worklist@.len() == 0
                &&& state.unused_variables@.len() == 0
            },
    {
        if token_a_address.address_type != AddressType::PublicContract
            || token_b_address.address_type != AddressType::PublicContract {
            return Err(ZkSwapError::NotPublicContract);
        }
        if token_a_address == token_b_address {
            return Err(ZkSwapError::DuplicateTokens);
        }
        let mut balances = PairwiseTokenBalances::new(token_a_address, token_b_address);
        let _ = balances.deposit_to_user_balance(contract_address, Token::A, 0);
        proof {
            lemma_index_of_range(Seq::<(Address, Balance)>::empty(), contract_address);
            assert(empty_balance().with_amount(Token::A, 0) == empty_balance());
        }
        Ok(
            ContractState {
                contract_owner: sender,
                token_pool_address: contract_address,
                swap_constant: 0,
                is_closed: true,
                balances,
                worklist: VecDeque::new(),
                unused_variables: Vec::new(),
            },
        )
    }

    /// The owner moves `pool_size` of the token at `token_address` from its
    /// balance into the pools of the closed pool. Once both pools are non-empty
    /// and their product fits in `u128`, the product becomes the swap constant
    /// and the pool opens.
    pub fn provide_liquidity(&mut self, sender: Address, token_address: Address, pool_size: u128) -> (r:
        Result<(), ZkSwapError>)
        ensures
            sender != old(self).contract_owner ==> r == Err::<(), ZkSwapError>(ZkSwapError::NotOwner),
            sender == old(self).contract_owner && !old(self).is_closed ==> r == Err::<(), ZkSwapError>(
                ZkSwapError::Open,
            ),
            sender == old(self).contract_owner && old(self).is_closed && token_pair(
                old(self).balances.token_a,
                old(self).balances.token_b,
                token_address,
            ) is None ==> r == Err::<(), ZkSwapError>(ZkSwapError::UnknownToken),
            r is Err ==> final(self).balances.entries() == old(self).balances.entries()
                && final(self).is_closed == old(self).is_closed && final(self).swap_constant == old(
                self,
            ).swap_constant,
            sender == old(self).contract_owner && old(self).is_closed && token_pair(
                old(self).balances.token_a,
                old(self).balances.token_b,
                token_address,
            ) is Some ==> match transfer_outcome(
                old(self).balances.entries(),
                sender,
                old(self).token_pool_address,
                token_pair(old(self).balances.token_a, old(self).balances.token_b, token_address)->Some_0.0,
                pool_size,
            ) {
                Err(e) => r == Err::<(), ZkSwapError>(ledger_error(e)),
                Ok(s) => {
                    &&& r is Ok
                    &&& final(self).balances.entries() == s
                    &&& if final(self).pools().a_tokens > 0 && final(self).pools().b_tokens > 0
                        && final(self).pool_product() <= u128_max() {
                        &&& !final(self).is_closed
                        &&& final(self).swap_constant == final(self).pool_product()
                    } else {
                        &&& final(self).is_closed
                        &&& final(self).swap_constant == old(self).swap_constant
                    }
                },
            },
            final(self).contract_owner == old(self).contract_owner,
            final(self).token_pool_address == old(self).token_pool_address,
            final(self).balances.token_a == old(self).balances.token_a,
            final(self).balances.token_b == old(self).balances.token_b,
            final(self).worklist@ == old(self).worklist@,
            final(self).unused_variables@ == old(self).unused_variables@,
    {
        if sender != self.contract_owner {
            return Err(ZkSwapError::NotOwner);
        }
        if !self.is_closed {
            return Err(ZkSwapError::Open);
        }
        let (token, _) = match self.balances.deduce_from_to_tokens(&token_address) {
            None => return Err(ZkSwapError::UnknownToken),
            Some(pair) => pair,
        };
        let pool = self.token_pool_address;
        if let Err(e) = self.balances.transfer_from_to(&sender, pool, token, pool_size) {
            return Err(from_ledger_error(e));
        }
        let pools = self.balances.get_balance(&pool);
        if pools.a_tokens > 0 && pools.b_tokens > 0 {
            if let Some(swap_constant) = pools.a_tokens.checked_mul(pools.b_tokens) {
                self.swap_constant = swap_constant;
                self.is_closed = false;
            }
        }
        Ok(())
    }

    /// Credits `amount` of the token at `token_address` to `sender`. While the
    /// pool is closed only the owner may deposit.
    pub fn deposit(&mut self, sender: Address, token_address: Address, amount: u128) -> (r: Result<
        (),
        ZkSwapError,
    >)
        ensures
            old(self).is_closed && sender != old(self).contract_owner ==> r == Err::<(), ZkSwapError>(
                ZkSwapError::Closed,
            ),
            !old(self).is_closed || sender == old(self).contract_owner ==> match token_pair(
                old(self).balances.token_a,
                old(self).balances.token_b,
                token_address,
            ) {
                None => r == Err::<(), ZkSwapError>(ZkSwapError::UnknownToken),
                Some((token, _)) => match deposit_outcome(
                    old(self).balances.entries(),
                    sender,
                    token,
                    amount,
                ) {
                    Err(e) => r == Err::<(), ZkSwapError>(ledger_error(e)),
                    Ok(s) => r is Ok && final(self).balances.entries() == s,
                },
            },
            r is Err ==> final(self).balances.entries() == old(self).balances.entries(),
            final(self).balances.token_a == old(self).balances.token_a,
            final(self).balances.token_b == old(self).balances.token_b,
            final(self).contract_owner == old(self).contract_owner,
            final(self).token_pool_address == old(self).token_pool_address,
            final(self).swap_constant == old(self).swap_constant,
            final(self).is_closed == old(self).is_closed,
            final(self).worklist@ == old(self).worklist@,
            final(self).unused_variables@ == old(self).unused_variables@,
    {
        if self.is_closed && sender != self.contract_owner {
            return Err(ZkSwapError::Closed);
        }
        let (token, _) = match self.balances.deduce_from_to_tokens(&token_address) {
            None => return Err(ZkSwapError::UnknownToken),
            Some(pair) => pair,
        };
        match self.balances.deposit_to_user_balance(sender, token, amount) {
            Err(e) => Err(from_ledger_error(e)),
            Ok(()) => Ok(()),
        }
    }

    /// Debits `amount` of the token at `token_address` from `sender`, before the
    /// token contract is asked to make the transfer.
    pub fn withdraw(&mut self, sender: Address, token_address: Address, amount: u128) -> (r: Result<
        (),
        ZkSwapError,
    >)
        ensures
            match token_pair(old(self).balances.token_a, old(self).balances.token_b, token_address) {
                None => r == Err::<(), ZkSwapError>(ZkSwapError::UnknownToken),
                Some((token, _)) => match withdraw_outcome(
                    old(self).balances.entries(),
                    sender,
                    token,
                    amount,
                ) {
                    Err(e) => r == Err::<(), ZkSwapError>(ledger_error(e)),
                    Ok(s) => r is Ok && final(self).balances.entries() == s,
                },
            },
            r is Err ==> final(self).balances.entries() == old(self).balances.entries(),
            final(self).balances.token_a == old(self).balances.token_a,
            final(self).balances.token_b == old(self).balances.token_b,
            final(self).contract_owner == old(self).contract_owner,
            final(self).token_pool_address == old(self).token_pool_address,
            final(self).swap_constant == old(self).swap_constant,
            final(self).is_closed == old(self).is_closed,
            final(self).worklist@ == old(self).worklist@,
            final(self).unused_variables@ == old(self).unused_variables@,
    {
        let (token, _) = match self.balances.deduce_from_to_tokens(&token_address) {
            None => return Err(ZkSwapError::UnknownToken),
            Some(pair) => pair,
        };
        match self.balances.withdraw_from_user_balance(&sender, token, amount) {
            Err(e) => Err(from_ledger_error(e)),
            Ok(()) => Ok(()),
        }
    }

    /// Accepts a secret swap input from `sender`: refused while the pool is
    /// closed, or when `sender` holds neither token. Returns what is recorded of
    /// the input variable.
    pub fn swap(&self, sender: Address, only_if_at_front: bool) -> (r: Result<SecretVarMetadata, ZkSwapError>)
        ensures
            self.is_closed ==> r == Err::<SecretVarMetadata, ZkSwapError>(ZkSwapError::Closed),
            !self.is_closed && balance_in(self.balances.entries(), sender).a_tokens == 0
                && balance_in(self.balances.entries(), sender).b_tokens == 0 ==> r == Err::<
                SecretVarMetadata,
                ZkSwapError,
            >(ZkSwapError::NothingToSwap),
            r is Ok ==> r == Ok::<SecretVarMetadata, ZkSwapError>(
                SecretVarMetadata { is_output_variable: false, only_if_at_front },
            ),
            r is Err ==> self.is_closed || (balance_in(self.balances.entries(), sender).a_tokens
                == 0 && balance_in(self.balances.entries(), sender).b_tokens == 0),
    {
        if self.is_closed {
            return Err(ZkSwapError::Closed);
        }
        let balance = self.balances.get_balance(&sender);
        if balance.a_tokens == 0 && balance.b_tokens == 0 {
            return Err(ZkSwapError::NothingToSwap);
        }
        Ok(SecretVarMetadata { is_output_variable: false, only_if_at_front })
    }

    /// Records a swap input that has arrived. If no swap is in progress, the swap
    /// is queued and its variable is returned, to be computed on at once. If one
    /// is, the swap waits in the queue, or is discarded if it asked to be
    /// performed only at the front.
    pub fn swap_variable_inputted(&mut self, sender: Address, variable_id: u32, only_if_at_front: bool) -> (r:
        Option<u32>)
        ensures
            ({
                let entry = WorklistEntry { variable_id, sender };
                &&& old(self).worklist@.len() == 0 ==> {
                    &&& final(self).worklist@ == old(self).worklist@.push(entry)
                    &&& final(self).unused_variables@ == old(self).unused_variables@
                    &&& r == Some(variable_id)
                }
                &&& old(self).worklist@.len() > 0 && only_if_at_front ==> {
                    &&& final(self).worklist@ == old(self).worklist@
                    &&& final(self).unused_variables@ == old(self).unused_variables@.push(variable_id)
                    &&& r is None
                }
                &&& old(self).worklist@.len() > 0 && !only_if_at_front ==> {
                    &&& final(self).worklist@ == old(self).worklist@.push(entry)
                    &&& final(self).unused_variables@ == old(self).unused_variables@
                    &&& r is None
                }
            }),
            final(self).balances.entries() == old(self).balances.entries(),
            final(self).is_closed == old(self).is_closed,
            final(self).swap_constant == old(self).swap_constant,
    {
        let entry = WorklistEntry { variable_id, sender };
        if self.worklist.len() > 0 {
            if only_if_at_front {
                self.unused_variables.push(variable_id);
            } else {
                self.worklist.push_back(entry);
            }
            None
        } else {
            self.worklist.push_back(entry);
            Some(variable_id)
        }
    }

    /// The variable of the swap at the front of the queue, to be computed on next.
    pub fn start_next_in_queue(&self) -> (r: Option<u32>)
        ensures
            r == (if self.worklist@.len() == 0 {
                None
            } else {
                Some(self.worklist@[0].variable_id)
            }),
    {
        if self.worklist.len() == 0 {
            None
        } else {
            Some(self.worklist[0].variable_id)
        }
    }

    /// The ledger after `sender` swaps `token_from_sent_amount` of `token_from`
    /// for `token_to`, all or nothing.
    pub fn perform_swap(
        &self,
        sender: Address,
        token_from: Token,
        token_to: Token,
        token_from_sent_amount: u128,
    ) -> (r: Result<PairwiseTokenBalances, ZkSwapError>)
        ensures
            match perform_swap_outcome(
                self.balances.entries(),
                self.token_pool_address,
                self.swap_constant,
                sender,
                token_from,
                token_to,
                token_from_sent_amount,
            ) {
                Err(e) => r == Err::<PairwiseTokenBalances, ZkSwapError>(e),
                Ok(s) => r matches Ok(b) && b.entries() == s && b.token_a == self.balances.token_a
                    && b.token_b == self.balances.token_b,
            },
    {
        let pool = self.token_pool_address;
        let pools = self.balances.get_balance(&pool);
        let token_to_recv_amount = match calculate_token_to_amount(
            &pools,
            self.swap_constant,
            token_from,
            token_to,
            token_from_sent_amount,
        ) {
            Err(_) => return Err(ZkSwapError::Unpriceable),
            Ok(v) => v,
        };
        let mut balances = self.balances.duplicate();
        if let Err(e) = balances.transfer_from_to(&sender, pool, token_from, token_from_sent_amount) {
            return Err(from_ledger_error(e));
        }
        if let Err(e) = balances.transfer_from_to(&pool, sender, token_to, token_to_recv_amount) {
            return Err(from_ledger_error(e));
        }
        Ok(balances)
    }

    /// Performs the swap at the front of the queue once its amount and
    /// direction are known, and takes it off the queue. A swap that cannot be
    /// performed changes no balance. Returns the variables to delete (those left
    /// over, the swap's own, and `opened_variable`) and the variable of the next
    /// swap to compute on, if any.
    pub fn swap_opened(&mut self, opened_variable: u32, amount: u128, is_from_a: bool) -> (r: Result<
        (Vec<u32>, Option<u32>),
        ZkSwapError,
    >)
        ensures
            old(self).worklist@.len() == 0 ==> r == Err::<(Vec<u32>, Option<u32>), ZkSwapError>(
                ZkSwapError::EmptyWorklist,
            ) && final(self).balances.entries() == old(self).balances.entries()
                && final(self).worklist@ == old(self).worklist@ && final(self).unused_variables@
                == old(self).unused_variables@,
            old(self).worklist@.len() > 0 ==> {
                let entry = old(self).worklist@[0];
                let (token_from, token_to) = if is_from_a {
                    (Token::A, Token::B)
                } else {
                    (Token::B, Token::A)
                };
                &&& r matches Ok((to_delete, next)) && {
                    &&& to_delete@ == old(self).unused_variables@.push(entry.variable_id).push(
                        opened_variable,
                    )
                    &&& next == (if old(self).worklist@.len() == 1 {
                        None
                    } else {
                        Some(old(self).worklist@[1].variable_id)
                    })
                }
                &&& final(self).worklist@ == old(self).worklist@.drop_first()
                &&& final(self).unused_variables@.len() == 0
                &&& final(self).balances.entries() == match perform_swap_outcome(
                    old(self).balances.entries(),
                    old(self).token_pool_address,
                    old(self).swap_constant,
                    entry.sender,
                    token_from,
                    token_to,
                    amount,
                ) {
                    Ok(s) => s,
                    Err(_) => old(self).balances.entries(),
                }
            },
            final(self).balances.token_a == old(self).balances.token_a,
            final(self).balances.token_b == old(self).balances.token_b,
            final(self).contract_owner == old(self).contract_owner,
            final(self).token_pool_address == old(self).token_pool_address,
            final(self).swap_constant == old(self).swap_constant,
            final(self).is_closed == old(self).is_closed,
    {
        let entry = match self.worklist.pop_front() {
            None => return Err(ZkSwapError::EmptyWorklist),
            Some(entry) => entry,
        };
        let (token_from, token_to) = self.balances.deduce_from_to_tokens_b(is_from_a);
        let mut to_delete: Vec<u32> = Vec::new();
        std::mem::swap(&mut to_delete, &mut self.unused_variables);
        if let Ok(balances) = self.perform_swap(entry.sender, token_from, token_to, amount) {
            self.balances = balances;
        }
        to_delete.push(entry.variable_id);
        to_delete.push(opened_variable);
        let next = self.start_next_in_queue();
        Ok((to_delete, next))
    }

    /// The owner empties both pools into its own balance and closes the pool.
    pub fn close_pools(&mut self, sender: Address) -> (r: Result<(), ZkSwapError>)
        ensures
            sender != old(self).contract_owner ==> r == Err::<(), ZkSwapError>(ZkSwapError::NotOwner),
            sender == old(self).contract_owner && old(self).is_closed ==> r == Err::<(), ZkSwapError>(
                ZkSwapError::Closed,
            ),
            r is Err ==> final(self).balances.entries() == old(self).balances.entries()
                && final(self).is_closed == old(self).is_closed,
            sender == old(self).contract_owner && !old(self).is_closed ==> {
                let pool = old(self).token_pool_address;
                let pools = old(self).pools();
                match transfer_outcome(old(self).balances.entries(), pool, sender, Token::A, pools.a_tokens) {
                    Err(e) => r == Err::<(), ZkSwapError>(ledger_error(e)),
                    Ok(s1) => match transfer_outcome(s1, pool, sender, Token::B, pools.b_tokens) {
                        Err(e) => r == Err::<(), ZkSwapError>(ledger_error(e)),
                        Ok(s2) => r is Ok && final(self).balances.entries() == s2 && final(self).is_closed,
                    },
                }
            },
            final(self).balances.token_a == old(self).balances.token_a,
            final(self).balances.token_b == old(self).balances.token_b,
            final(self).contract_owner == old(self).contract_owner,
            final(self).token_pool_address == old(self).token_pool_address,
            final(self).swap_constant == old(self).swap_constant,
            final(self).worklist@ == old(self).worklist@,
            final(self).unused_variables@ == old(self).unused_variables@,
    {
        if sender != self.contract_owner {
            return Err(ZkSwapError::NotOwner);
        }
        if self.is_closed {
            return Err(ZkSwapError::Closed);
        }
        let pool = self.token_pool_address;
        let pools = self.balances.get_balance(&pool);
        let mut balances = self.balances.duplicate();
        if let Err(e) = balances.transfer_from_to(&pool, sender, Token::A, pools.a_tokens) {
            return Err(from_ledger_error(e));
        }
        if let Err(e) = balances.transfer_from_to(&pool, sender, Token::B, pools.b_tokens) {
            return Err(from_ledger_error(e));
        }
        self.balances = balances;
        self.is_closed = true;
        Ok(())
    }
}

} // verus!
