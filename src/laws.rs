//! Properties of the pool that hold across operations: the constant product,
//! the conservation of tokens, and the round trip of providing and reclaiming
//! liquidity.
use vstd::prelude::*;
use crate::address::Address;
use crate::balance::Token;
use crate::error::PoolError;
use crate::ledger;
use crate::balance::Balance;
use crate::ledger::{
    credited,
    deposit_outcome,
    lemma_deposit_effect,
    lemma_transfer_effect,
    lemma_withdraw_effect,
    token_pair,
    total,
    transfer_outcome,
    withdraw_outcome,
};
use crate::pool::{
    PoolModel,
    deposit_callback_outcome,
    provide_initial_outcome,
    provide_outcome,
    provision_moves,
    reclaim_amounts,
    reclaim_outcome,
    swap_outcome,
    withdraw_pool_outcome,
};
use crate::pricing::{
    equivalent_output,
    floor_sqrt,
    redeemed,
    remainder_ratio,
    shares_minted,
    swap_output,
    swap_overflows,
    u128_max,
};

verus! {

/// The product of the two reserves of a pool.
pub open spec fn reserve_product(m: PoolModel) -> int {
    m.reserve(Token::A) * m.reserve(Token::B)
}

proof fn lemma_div_mul_bound(n: int, d: int)
    requires
        n >= 0,
        d > 0,
    ensures
        (n / d) * d <= n,
        n / d >= 0,
{
    vstd::arithmetic::div_mod::lemma_fundamental_div_mod(n, d);
    vstd::arithmetic::div_mod::lemma_mod_bound(n, d);
    vstd::arithmetic::div_mod::lemma_div_pos_is_pos(n, d);
    assert(d * (n / d) == (n / d) * d) by (nonlinear_arith);
}

/// Against reserves `reserve_in` and `reserve_out`, a swap of `amount_in` pays
/// out less than the output reserve, and the product of the reserves after the
/// swap is at least the product before; strictly more when a fee is charged on a
/// non-empty swap.
pub proof fn lemma_swap_output_keeps_product(
    reserve_in: int,
    reserve_out: int,
    amount_in: int,
    fee_per_mille: int,
)
    requires
        reserve_in > 0,
        reserve_out > 0,
        amount_in >= 0,
        0 <= fee_per_mille <= 1000,
    ensures
        0 <= swap_output(reserve_in, reserve_out, amount_in, fee_per_mille) < reserve_out,
        (reserve_in + amount_in) * (reserve_out - swap_output(
            reserve_in,
            reserve_out,
            amount_in,
            fee_per_mille,
        )) >= reserve_in * reserve_out,
        fee_per_mille > 0 && amount_in > 0 ==> (reserve_in + amount_in) * (reserve_out
            - swap_output(reserve_in, reserve_out, amount_in, fee_per_mille)) > reserve_in
            * reserve_out,
{
    let r = remainder_ratio(fee_per_mille);
    let net = r * amount_in;
    let n = net * reserve_out;
    let d = 1000 * reserve_in + net;
    let out = swap_output(reserve_in, reserve_out, amount_in, fee_per_mille);
    assert(net >= 0 && n >= 0) by (nonlinear_arith)
        requires
            r >= 0,
            amount_in >= 0,
            reserve_out > 0,
            net == r * amount_in,
            n == net * reserve_out,
    ;
    assert(out == n / d);
    lemma_div_mul_bound(n, d);
    // The denominator is at least r * (reserve_in + amount_in), more when r < 1000.
    assert(r * (reserve_in + amount_in) <= d) by (nonlinear_arith)
        requires
            0 <= r <= 1000,
            reserve_in > 0,
            d == 1000 * reserve_in + r * amount_in,
    ;
    assert(r < 1000 ==> r * (reserve_in + amount_in) < d) by (nonlinear_arith)
        requires
            0 <= r <= 1000,
            reserve_in > 0,
            d == 1000 * reserve_in + r * amount_in,
    ;
    // So out * (reserve_in + amount_in) <= amount_in * reserve_out.
    let x = out * (reserve_in + amount_in);
    let y = amount_in * reserve_out;
    if r == 0 {
        assert(n == 0) by (nonlinear_arith)
            requires
                r == 0,
                net == r * amount_in,
                n == net * reserve_out,
        ;
        assert(out == 0) by (nonlinear_arith)
            requires
                out >= 0,
                out * d <= 0,
                d > 0,
        ;
        assert(x == 0 && y >= 0 && (amount_in > 0 ==> y > 0)) by (nonlinear_arith)
            requires
                out == 0,
                x == out * (reserve_in + amount_in),
                y == amount_in * reserve_out,
                amount_in >= 0,
                reserve_out > 0,
        ;
    } else {
        assert(r * x <= out * d) by (nonlinear_arith)
            requires
                out >= 0,
                r * (reserve_in + amount_in) <= d,
                x == out * (reserve_in + amount_in),
        ;
        assert(r < 1000 && out > 0 ==> r * x < out * d) by (nonlinear_arith)
            requires
                out >= 0,
                r < 1000 ==> r * (reserve_in + amount_in) < d,
                x == out * (reserve_in + amount_in),
        ;
        assert(n == r * y) by (nonlinear_arith)
            requires
                net == r * amount_in,
                n == net * reserve_out,
                y == amount_in * reserve_out,
        ;
        assert(x <= y) by (nonlinear_arith)
            requires
                r > 0,
                r * x <= r * y,
        ;
        if r < 1000 && amount_in > 0 {
            if out > 0 {
                assert(x < y) by (nonlinear_arith)
                    requires
                        r > 0,
                        r * x < r * y,
                ;
            } else {
                assert(x == 0 && y > 0) by (nonlinear_arith)
                    requires
                        out == 0,
                        x == out * (reserve_in + amount_in),
                        y == amount_in * reserve_out,
                        amount_in > 0,
                        reserve_out > 0,
                ;
            }
        }
    }
    assert(x <= y);
    assert(r < 1000 && amount_in > 0 ==> x < y);
    assert(out < reserve_out) by (nonlinear_arith)
        requires
            out * (reserve_in + amount_in) <= amount_in * reserve_out,
            reserve_in > 0,
            amount_in >= 0,
            reserve_out > 0,
            out >= 0,
    ;
    assert((reserve_in + amount_in) * (reserve_out - out) == reserve_in * reserve_out + amount_in
        * reserve_out - out * (reserve_in + amount_in)) by (nonlinear_arith);
}

proof fn lemma_swap_output_fits(reserve_in: int, reserve_out: int, amount_in: int, fee_per_mille: int)
    requires
        reserve_in > 0,
        reserve_out >= 0,
        amount_in >= 0,
        0 <= fee_per_mille <= 1000,
        !swap_overflows(reserve_in, reserve_out, amount_in, fee_per_mille),
    ensures
        0 <= swap_output(reserve_in, reserve_out, amount_in, fee_per_mille) <= u128_max(),
{
    let r = remainder_ratio(fee_per_mille);
    let net = r * amount_in;
    let n = net * reserve_out;
    let d = 1000 * reserve_in + net;
    assert(net >= 0 && n >= 0) by (nonlinear_arith)
        requires
            r >= 0,
            amount_in >= 0,
            reserve_out >= 0,
            net == r * amount_in,
            n == net * reserve_out,
    ;
    assert(n / d <= n) by (nonlinear_arith)
        requires
            n >= 0,
            d >= 1,
    ;
    lemma_div_mul_bound(n, d);
}

/// What a successful swap does to the pool's reserves: the input reserve grows by
/// the amount swapped in, the output reserve shrinks by the amount paid out,
/// unless the pool swaps with itself.
proof fn lemma_swap_reserves(m: PoolModel, user: Address, token_in: Address, amount_in: u128, min_out: u128)
    requires
        m.valid(),
        swap_outcome(m, user, token_in, amount_in, min_out) is Ok,
    ensures
        ({
            let (m2, out) = swap_outcome(m, user, token_in, amount_in, min_out)->Ok_0;
            let (tin, tout) = token_pair(m.token_a, m.token_b, token_in)->Some_0;
            &&& token_pair(m.token_a, m.token_b, token_in) is Some
            &&& (tin == Token::A && tout == Token::B) || (tin == Token::B && tout == Token::A)
            &&& m2.pool == m.pool && m2.fee == m.fee
            &&& m2.token_a == m.token_a && m2.token_b == m.token_b
            &&& out == swap_output(m.reserve(tin), m.reserve(tout), amount_in as int, m.fee as int)
            &&& m2.reserve(tin) == m.reserve(tin) + (if user != m.pool {
                amount_in as int
            } else {
                0
            })
            &&& m2.reserve(tout) == m.reserve(tout) - (if user != m.pool {
                out as int
            } else {
                0
            })
        }),
{
    let (tin, tout) = token_pair(m.token_a, m.token_b, token_in)->Some_0;
    let rin = m.reserve(tin);
    let rout = m.reserve(tout);
    lemma_swap_output_fits(rin, rout, amount_in as int, m.fee as int);
    let out = swap_output(rin, rout, amount_in as int, m.fee as int) as u128;
    let s1 = transfer_outcome(m.entries, user, m.pool, tin, amount_in)->Ok_0;
    let s2 = transfer_outcome(s1, m.pool, user, tout, out)->Ok_0;
    lemma_transfer_effect(m.entries, user, m.pool, tin, amount_in, s1);
    lemma_transfer_effect(s1, m.pool, user, tout, out, s2);
    assert(ledger::amount_in(s2, m.pool, tin) == ledger::amount_in(s1, m.pool, tin) + credited(m.pool, tin, user, tout, out as int)
        - credited(m.pool, tin, m.pool, tout, out as int));
    assert(ledger::amount_in(s1, m.pool, tin) == ledger::amount_in(m.entries, m.pool, tin) + credited(m.pool, tin, m.pool, tin, amount_in as int)
        - credited(m.pool, tin, user, tin, amount_in as int));
    assert(ledger::amount_in(s2, m.pool, tout) == ledger::amount_in(s1, m.pool, tout) + credited(m.pool, tout, user, tout, out as int)
        - credited(m.pool, tout, m.pool, tout, out as int));
    assert(ledger::amount_in(s1, m.pool, tout) == ledger::amount_in(m.entries, m.pool, tout) + credited(m.pool, tout, m.pool, tin, amount_in as int)
        - credited(m.pool, tout, user, tin, amount_in as int));
}

/// A swap on a valid pool with both reserves non-empty keeps both reserves
/// non-empty and never decreases the product of the reserves. When a fee is
/// charged on a non-empty swap by a holder other than the pool, the product
/// strictly increases.
pub proof fn lemma_swap_keeps_constant_product(
    m: PoolModel,
    user: Address,
    token_in: Address,
    amount_in: u128,
    min_out: u128,
)
    requires
        m.valid(),
        m.has_liquidity(),
    ensures
        swap_outcome(m, user, token_in, amount_in, min_out) matches Ok((m2, _)) ==> {
            &&& m2.valid()
            &&& m2.has_liquidity()
            &&& reserve_product(m2) >= reserve_product(m)
            &&& m.fee > 0 && amount_in > 0 && user != m.pool ==> reserve_product(m2)
                > reserve_product(m)
        },
{
    if swap_outcome(m, user, token_in, amount_in, min_out) is Ok {
        lemma_swap_reserves(m, user, token_in, amount_in, min_out);
        let (m2, out) = swap_outcome(m, user, token_in, amount_in, min_out)->Ok_0;
        let (tin, tout) = token_pair(m.token_a, m.token_b, token_in)->Some_0;
        let rin = m.reserve(tin);
        let rout = m.reserve(tout);
        lemma_swap_output_keeps_product(rin, rout, amount_in as int, m.fee as int);
        if user != m.pool {
            let new_in = rin + amount_in;
            let new_out = rout - out;
            assert(m2.reserve(tin) == new_in && m2.reserve(tout) == new_out);
            if tin == Token::A {
                assert(reserve_product(m2) == new_in * new_out);
                assert(reserve_product(m) == rin * rout);
            } else {
                assert(reserve_product(m2) == new_out * new_in);
                assert(reserve_product(m) == rout * rin);
                assert(new_out * new_in == new_in * new_out) by (nonlinear_arith);
                assert(rout * rin == rin * rout) by (nonlinear_arith);
            }
        }
    }
}

/// A swap request: the swapping holder, the address of the token swapped in, the
/// amount swapped in, and the least amount accepted in return.
pub type SwapRequest = (Address, Address, u128, u128);

/// The pool after one swap request: refused requests leave it unchanged.
pub open spec fn swap_step(m: PoolModel, req: SwapRequest) -> PoolModel {
    match swap_outcome(m, req.0, req.1, req.2, req.3) {
        Ok((m2, _)) => m2,
        Err(_) => m,
    }
}

/// The pool after a sequence of swap requests, taken in order.
pub open spec fn after_swaps(m: PoolModel, reqs: Seq<SwapRequest>) -> PoolModel
    decreases reqs.len(),
{
    if reqs.len() == 0 {
        m
    } else {
        after_swaps(swap_step(m, reqs[0]), reqs.drop_first())
    }
}

/// Any sequence of swaps on a valid pool with both reserves non-empty leaves the
/// product of the reserves at least where it started, and the pool liquid.
pub proof fn lemma_swaps_keep_constant_product(m: PoolModel, reqs: Seq<SwapRequest>)
    requires
        m.valid(),
        m.has_liquidity(),
    ensures
        after_swaps(m, reqs).valid(),
        after_swaps(m, reqs).has_liquidity(),
        reserve_product(after_swaps(m, reqs)) >= reserve_product(m),
    decreases reqs.len(),
{
    if reqs.len() > 0 {
        let req = reqs[0];
        lemma_swap_keeps_constant_product(m, req.0, req.1, req.2, req.3);
        lemma_swaps_keep_constant_product(swap_step(m, req), reqs.drop_first());
    }
}

/// A swap in from token A followed by a swap in from token B, by any holders,
/// never decreases the product of the reserves of a valid, liquid pool.
pub proof fn lemma_opposite_swaps_keep_constant_product(
    m: PoolModel,
    first: SwapRequest,
    second: SwapRequest,
)
    requires
        m.valid(),
        m.has_liquidity(),
        first.1 == m.token_a,
        second.1 == m.token_b,
    ensures
        reserve_product(swap_step(swap_step(m, first), second)) >= reserve_product(m),
{
    lemma_swap_keeps_constant_product(m, first.0, first.1, first.2, first.3);
    let m1 = swap_step(m, first);
    lemma_swap_keeps_constant_product(m1, second.0, second.1, second.2, second.3);
}

/// An operation on a pool by the holder `user`. A deposit is represented by its
/// confirmation, the step that credits the ledger.
pub enum PoolOperation {
    DepositConfirmed { user: Address, success: bool, token: Token, amount: u128 },
    Withdraw { user: Address, token_address: Address, amount: u128 },
    Swap { user: Address, token_in: Address, amount_in: u128, min_out: u128 },
    ProvideLiquidity { user: Address, token_address: Address, amount: u128 },
    ProvideInitialLiquidity { user: Address, amount_a: u128, amount_b: u128 },
    ReclaimLiquidity { user: Address, shares: u128 },
}

/// The pool after `op`, or why `op` was refused.
pub open spec fn apply_operation(m: PoolModel, op: PoolOperation) -> Result<PoolModel, PoolError> {
    match op {
        PoolOperation::DepositConfirmed { user, success, token, amount } => deposit_callback_outcome(
            m,
            user,
            success,
            token,
            amount,
        ),
        PoolOperation::Withdraw { user, token_address, amount } => withdraw_pool_outcome(
            m,
            user,
            token_address,
            amount,
        ),
        PoolOperation::Swap { user, token_in, amount_in, min_out } => match swap_outcome(
            m,
            user,
            token_in,
            amount_in,
            min_out,
        ) {
            Ok((m2, _)) => Ok(m2),
            Err(e) => Err(e),
        },
        PoolOperation::ProvideLiquidity { user, token_address, amount } => match provide_outcome(
            m,
            user,
            token_address,
            amount,
        ) {
            Ok((m2, _)) => Ok(m2),
            Err(e) => Err(e),
        },
        PoolOperation::ProvideInitialLiquidity { user, amount_a, amount_b } => match provide_initial_outcome(
            m,
            user,
            amount_a,
            amount_b,
        ) {
            Ok((m2, _)) => Ok(m2),
            Err(e) => Err(e),
        },
        PoolOperation::ReclaimLiquidity { user, shares } => match reclaim_outcome(m, user, shares) {
            Ok((m2, _)) => Ok(m2),
            Err(e) => Err(e),
        },
    }
}

/// How much of `token` enters the ledger from outside (positive) or leaves it
/// (negative) in a successful `op`: only deposits and withdrawals cross the
/// ledger's boundary.
pub open spec fn boundary_change(m: PoolModel, op: PoolOperation, token: Token) -> int {
    match op {
        PoolOperation::DepositConfirmed { token: t, amount, .. } => if t == token {
            amount as int
        } else {
            0
        },
        PoolOperation::Withdraw { token_address, amount, .. } => match token_pair(
            m.token_a,
            m.token_b,
            token_address,
        ) {
            Some((t, _)) => if t == token {
                -(amount as int)
            } else {
                0
            },
            None => 0,
        },
        _ => 0,
    }
}

proof fn lemma_provision_moves_totals(
    s: Seq<(Address, Balance)>,
    user: Address,
    pool: Address,
    token_in: Token,
    token_out: Token,
    amount_in: u128,
    amount_out: u128,
    minted: u128,
)
    requires
        provision_moves(s, user, pool, token_in, token_out, amount_in, amount_out, minted) is Ok,
    ensures
        forall|t: Token|
            t != Token::Liquidity ==> #[trigger] total(
                provision_moves(s, user, pool, token_in, token_out, amount_in, amount_out, minted)->Ok_0,
                t,
            ) == total(s, t),
{
    let s1 = transfer_outcome(s, user, pool, token_in, amount_in)->Ok_0;
    let s2 = transfer_outcome(s1, user, pool, token_out, amount_out)->Ok_0;
    let s3 = deposit_outcome(s2, user, Token::Liquidity, minted)->Ok_0;
    let s4 = deposit_outcome(s3, pool, Token::Liquidity, minted)->Ok_0;
    lemma_transfer_effect(s, user, pool, token_in, amount_in, s1);
    lemma_transfer_effect(s1, user, pool, token_out, amount_out, s2);
    lemma_deposit_effect(s2, user, Token::Liquidity, minted, s3);
    lemma_deposit_effect(s3, pool, Token::Liquidity, minted, s4);
}

/// Every operation keeps the total of token A and the total of token B over all
/// holders, the pool included, except deposits and withdrawals, which change
/// the total of their token by exactly the amount transferred.
pub proof fn lemma_conservation(m: PoolModel, op: PoolOperation, token: Token)
    requires
        m.valid(),
        token == Token::A || token == Token::B,
    ensures
        apply_operation(m, op) matches Ok(m2) ==> total(m2.entries, token) == total(m.entries, token)
            + boundary_change(m, op, token),
{
    if apply_operation(m, op) is Ok {
        match op {
            PoolOperation::DepositConfirmed { user, success, token: t, amount } => {
                let s1 = deposit_outcome(m.entries, user, t, amount)->Ok_0;
                lemma_deposit_effect(m.entries, user, t, amount, s1);
            },
            PoolOperation::Withdraw { user, token_address, amount } => {
                let (tin, _) = token_pair(m.token_a, m.token_b, token_address)->Some_0;
                let s1 = withdraw_outcome(m.entries, user, tin, amount)->Ok_0;
                lemma_withdraw_effect(m.entries, user, tin, amount, s1);
            },
            PoolOperation::Swap { user, token_in, amount_in, min_out } => {
                let (tin, tout) = token_pair(m.token_a, m.token_b, token_in)->Some_0;
                let rin = m.reserve(tin);
                let rout = m.reserve(tout);
                let out = swap_output(rin, rout, amount_in as int, m.fee as int) as u128;
                let s1 = transfer_outcome(m.entries, user, m.pool, tin, amount_in)->Ok_0;
                let s2 = transfer_outcome(s1, m.pool, user, tout, out)->Ok_0;
                lemma_transfer_effect(m.entries, user, m.pool, tin, amount_in, s1);
                lemma_transfer_effect(s1, m.pool, user, tout, out, s2);
            },
            PoolOperation::ProvideLiquidity { user, token_address, amount } => {
                let (tin, tout) = token_pair(m.token_a, m.token_b, token_address)->Some_0;
                let rin = m.reserve(tin);
                let rout = m.reserve(tout);
                let total_shares = m.reserve(Token::Liquidity);
                let equivalent = equivalent_output(amount as int, rin, rout) as u128;
                let minted = shares_minted(amount as int, rin, total_shares) as u128;
                lemma_provision_moves_totals(m.entries, user, m.pool, tin, tout, amount, equivalent, minted);
            },
            PoolOperation::ProvideInitialLiquidity { user, amount_a, amount_b } => {
                let minted = floor_sqrt((amount_a * amount_b) as nat) as u128;
                lemma_provision_moves_totals(m.entries, user, m.pool, Token::A, Token::B, amount_a, amount_b, minted);
            },
            PoolOperation::ReclaimLiquidity { user, shares } => {
                let s1 = withdraw_outcome(m.entries, user, Token::Liquidity, shares)->Ok_0;
                let a_out = reclaim_amounts(s1, m.pool, shares).0 as u128;
                let b_out = reclaim_amounts(s1, m.pool, shares).1 as u128;
                let s2 = transfer_outcome(s1, m.pool, user, Token::A, a_out)->Ok_0;
                let s3 = transfer_outcome(s2, m.pool, user, Token::B, b_out)->Ok_0;
                let s4 = withdraw_outcome(s3, m.pool, Token::Liquidity, shares)->Ok_0;
                lemma_withdraw_effect(m.entries, user, Token::Liquidity, shares, s1);
                lemma_transfer_effect(s1, m.pool, user, Token::A, a_out, s2);
                lemma_transfer_effect(s2, m.pool, user, Token::B, b_out, s3);
                lemma_withdraw_effect(s3, m.pool, Token::Liquidity, shares, s4);
            },
        }
    }
}

proof fn lemma_div_at_most(x: int, d: int, bound: int)
    requires
        x >= 0,
        d > 0,
        x <= bound * d,
    ensures
        0 <= x / d <= bound,
{
    lemma_div_mul_bound(x, d);
    assert(x / d <= bound) by (nonlinear_arith)
        requires
            (x / d) * d <= x,
            x <= bound * d,
            d > 0,
    ;
}

/// Burning the shares just minted for a provision of `amount_in` against
/// reserves `reserve_in` and `reserve_out` and `total_shares` shares redeems at
/// most what was provided of each token.
pub proof fn lemma_provision_round_trip(amount_in: int, reserve_in: int, reserve_out: int, total_shares: int)
    requires
        amount_in >= 0,
        reserve_in > 0,
        reserve_out >= 0,
        total_shares >= 0,
        shares_minted(amount_in, reserve_in, total_shares) > 0,
    ensures
        ({
            let minted = shares_minted(amount_in, reserve_in, total_shares);
            let equivalent = equivalent_output(amount_in, reserve_in, reserve_out);
            &&& 0 <= redeemed(minted, reserve_in + amount_in, total_shares + minted) <= amount_in
            &&& 0 <= redeemed(minted, reserve_out + equivalent, total_shares + minted) <= equivalent
            &&& 0 <= redeemed(minted, reserve_in, total_shares + minted) <= amount_in
            &&& 0 <= redeemed(minted, reserve_out, total_shares + minted) <= equivalent
        }),
{
    let minted = shares_minted(amount_in, reserve_in, total_shares);
    let equivalent = equivalent_output(amount_in, reserve_in, reserve_out);
    let d = total_shares + minted;
    assert(amount_in * total_shares >= 0) by (nonlinear_arith)
        requires
            amount_in >= 0,
            total_shares >= 0,
    ;
    lemma_div_mul_bound(amount_in * total_shares, reserve_in);
    assert(minted * reserve_in <= amount_in * total_shares);
    assert(amount_in > 0) by (nonlinear_arith)
        requires
            minted > 0,
            minted * reserve_in <= amount_in * total_shares,
            reserve_in > 0,
            amount_in >= 0,
            total_shares >= 0,
    ;
    // The input side: (reserve_in + amount_in) * minted <= amount_in * d.
    let x = minted * (reserve_in + amount_in);
    assert(0 <= x <= amount_in * d) by (nonlinear_arith)
        requires
            minted > 0,
            reserve_in > 0,
            amount_in > 0,
            minted * reserve_in <= amount_in * total_shares,
            x == minted * (reserve_in + amount_in),
            d == total_shares + minted,
    ;
    lemma_div_at_most(x, d, amount_in);
    assert(0 <= minted * reserve_in <= x) by (nonlinear_arith)
        requires
            minted > 0,
            reserve_in > 0,
            amount_in > 0,
            x == minted * (reserve_in + amount_in),
    ;
    lemma_div_at_most(minted * reserve_in, d, amount_in);
    // The other side: equivalent * reserve_in exceeds amount_in * reserve_out.
    let p = amount_in * reserve_out;
    assert(p >= 0) by (nonlinear_arith)
        requires
            amount_in >= 0,
            reserve_out >= 0,
            p == amount_in * reserve_out,
    ;
    vstd::arithmetic::div_mod::lemma_fundamental_div_mod(p, reserve_in);
    vstd::arithmetic::div_mod::lemma_mod_bound(p, reserve_in);
    assert(equivalent == p / reserve_in + 1);
    assert(p < equivalent * reserve_in) by (nonlinear_arith)
        requires
            p == reserve_in * (p / reserve_in) + p % reserve_in,
            p % reserve_in < reserve_in,
            equivalent == p / reserve_in + 1,
    ;
    assert(reserve_out * minted <= equivalent * total_shares) by (nonlinear_arith)
        requires
            minted * reserve_in <= amount_in * total_shares,
            p == amount_in * reserve_out,
            p < equivalent * reserve_in,
            reserve_in > 0,
            reserve_out >= 0,
            minted >= 0,
            total_shares >= 0,
    ;
    let y = minted * (reserve_out + equivalent);
    assert(0 <= y <= equivalent * d) by (nonlinear_arith)
        requires
            minted > 0,
            reserve_out >= 0,
            equivalent >= 1,
            reserve_out * minted <= equivalent * total_shares,
            y == minted * (reserve_out + equivalent),
            d == total_shares + minted,
    ;
    lemma_div_at_most(y, d, equivalent);
    assert(0 <= minted * reserve_out <= y) by (nonlinear_arith)
        requires
            minted > 0,
            reserve_out >= 0,
            equivalent >= 1,
            y == minted * (reserve_out + equivalent),
    ;
    lemma_div_at_most(minted * reserve_out, d, equivalent);
}

proof fn lemma_provision_moves_amounts(
    s: Seq<(Address, Balance)>,
    user: Address,
    pool: Address,
    token_in: Token,
    token_out: Token,
    amount_in: u128,
    amount_out: u128,
    minted: u128,
)
    requires
        provision_moves(s, user, pool, token_in, token_out, amount_in, amount_out, minted) is Ok,
        (token_in == Token::A && token_out == Token::B) || (token_in == Token::B && token_out
            == Token::A),
    ensures
        ({
            let s4 = provision_moves(s, user, pool, token_in, token_out, amount_in, amount_out, minted)->Ok_0;
            let moved_in = if user != pool { amount_in as int } else { 0 };
            let moved_out = if user != pool { amount_out as int } else { 0 };
            let minted_to_pool = if user != pool { minted as int } else { 2 * minted };
            &&& ledger::amount_in(s4, pool, token_in) == ledger::amount_in(s, pool, token_in) + moved_in
            &&& ledger::amount_in(s4, pool, token_out) == ledger::amount_in(s, pool, token_out) + moved_out
            &&& ledger::amount_in(s4, pool, Token::Liquidity) == ledger::amount_in(s, pool, Token::Liquidity)
                + minted_to_pool
        }),
{
    let s1 = transfer_outcome(s, user, pool, token_in, amount_in)->Ok_0;
    let s2 = transfer_outcome(s1, user, pool, token_out, amount_out)->Ok_0;
    let s3 = deposit_outcome(s2, user, Token::Liquidity, minted)->Ok_0;
    let s4 = deposit_outcome(s3, pool, Token::Liquidity, minted)->Ok_0;
    lemma_transfer_effect(s, user, pool, token_in, amount_in, s1);
    lemma_transfer_effect(s1, user, pool, token_out, amount_out, s2);
    lemma_deposit_effect(s2, user, Token::Liquidity, minted, s3);
    lemma_deposit_effect(s3, pool, Token::Liquidity, minted, s4);
    assert(ledger::amount_in(s4, pool, token_in) == ledger::amount_in(s3, pool, token_in));
    assert(ledger::amount_in(s3, pool, token_in) == ledger::amount_in(s2, pool, token_in));
    assert(ledger::amount_in(s2, pool, token_in) == ledger::amount_in(s1, pool, token_in));
    assert(ledger::amount_in(s1, pool, token_in) == ledger::amount_in(s, pool, token_in) + credited(pool, token_in, pool, token_in, amount_in as int)
        - credited(pool, token_in, user, token_in, amount_in as int));
    assert(ledger::amount_in(s4, pool, token_out) == ledger::amount_in(s3, pool, token_out));
    assert(ledger::amount_in(s3, pool, token_out) == ledger::amount_in(s2, pool, token_out));
    assert(ledger::amount_in(s2, pool, token_out) == ledger::amount_in(s1, pool, token_out) + credited(pool, token_out, pool, token_out, amount_out as int)
        - credited(pool, token_out, user, token_out, amount_out as int));
    assert(ledger::amount_in(s1, pool, token_out) == ledger::amount_in(s, pool, token_out));
    assert(ledger::amount_in(s4, pool, Token::Liquidity) == ledger::amount_in(s3, pool, Token::Liquidity)
        + minted);
    assert(ledger::amount_in(s3, pool, Token::Liquidity) == ledger::amount_in(s2, pool, Token::Liquidity)
        + credited(pool, Token::Liquidity, user, Token::Liquidity, minted as int));
    assert(ledger::amount_in(s2, pool, Token::Liquidity) == ledger::amount_in(s1, pool, Token::Liquidity));
    assert(ledger::amount_in(s1, pool, Token::Liquidity) == ledger::amount_in(s, pool, Token::Liquidity));
}

/// A holder that provides liquidity and then at once reclaims all the shares
/// minted for it gets back no more of either token than it put in.
pub proof fn lemma_provide_then_reclaim(m: PoolModel, user: Address, token_address: Address, amount: u128)
    requires
        m.valid(),
    ensures
        provide_outcome(m, user, token_address, amount) matches Ok((m2, minted)) ==> {
            let (tin, tout) = token_pair(m.token_a, m.token_b, token_address)->Some_0;
            let equivalent = equivalent_output(amount as int, m.reserve(tin), m.reserve(tout));
            reclaim_outcome(m2, user, minted) matches Ok((_, (a_out, b_out))) ==> {
                &&& (if tin == Token::A { a_out } else { b_out }) <= amount
                &&& (if tout == Token::A { a_out } else { b_out }) <= equivalent
            }
        },
{
    if provide_outcome(m, user, token_address, amount) is Ok {
        let (m2, minted) = provide_outcome(m, user, token_address, amount)->Ok_0;
        let (tin, tout) = token_pair(m.token_a, m.token_b, token_address)->Some_0;
        let rin = m.reserve(tin);
        let rout = m.reserve(tout);
        let total_shares = m.reserve(Token::Liquidity);
        let equivalent = equivalent_output(amount as int, rin, rout);
        let minted_int = shares_minted(amount as int, rin, total_shares);
        assert(amount * total_shares >= 0) by (nonlinear_arith)
            requires
                amount >= 0,
                total_shares >= 0,
        ;
        assert(amount * total_shares <= (amount * total_shares) * rin) by (nonlinear_arith)
            requires
                amount * total_shares >= 0,
                rin >= 1,
        ;
        lemma_div_at_most(amount * total_shares, rin, amount * total_shares);
        assert(minted == minted_int);
        lemma_provision_moves_amounts(m.entries, user, m.pool, tin, tout, amount, equivalent as u128, minted);
        if reclaim_outcome(m2, user, minted) is Ok {
            let s1 = withdraw_outcome(m2.entries, user, Token::Liquidity, minted)->Ok_0;
            lemma_withdraw_effect(m2.entries, user, Token::Liquidity, minted, s1);
            assert(ledger::amount_in(s1, m.pool, tin) == ledger::amount_in(m2.entries, m.pool, tin));
            assert(ledger::amount_in(s1, m.pool, tout) == ledger::amount_in(m2.entries, m.pool, tout));
            assert(ledger::amount_in(s1, m.pool, Token::Liquidity) == ledger::amount_in(
                m2.entries,
                m.pool,
                Token::Liquidity,
            ) - credited(m.pool, Token::Liquidity, user, Token::Liquidity, minted as int));
            assert(ledger::amount_in(s1, m.pool, Token::Liquidity) == total_shares + minted);
            lemma_provision_round_trip(amount as int, rin, rout, total_shares);
        }
    }
}

/// A holder that seeds an empty pool and then at once reclaims all the shares
/// minted for it gets back exactly what it put in.
pub proof fn lemma_seed_then_reclaim(m: PoolModel, user: Address, amount_a: u128, amount_b: u128)
    requires
        m.valid(),
        m.reserve(Token::A) == 0,
        m.reserve(Token::B) == 0,
        m.reserve(Token::Liquidity) == 0,
    ensures
        provide_initial_outcome(m, user, amount_a, amount_b) matches Ok((m2, minted)) ==> (
        reclaim_outcome(m2, user, minted) matches Ok((_, (a_out, b_out))) ==> a_out == amount_a
            && b_out == amount_b),
{
    if user == m.pool && amount_a * amount_b <= u128_max() {
        // The pool holds nothing to seed itself with.
        if amount_a == 0 {
            assert(amount_a * amount_b == 0) by (nonlinear_arith)
                requires
                    amount_a == 0,
            ;
            assert(floor_sqrt(0) == 0);
        } else {
            assert(withdraw_outcome(m.entries, user, Token::A, amount_a) is Err);
        }
    }
    if provide_initial_outcome(m, user, amount_a, amount_b) is Ok {
        let (m2, minted) = provide_initial_outcome(m, user, amount_a, amount_b)->Ok_0;
        lemma_provision_moves_amounts(m.entries, user, m.pool, Token::A, Token::B, amount_a, amount_b, minted);
        if reclaim_outcome(m2, user, minted) is Ok {
            let s1 = withdraw_outcome(m2.entries, user, Token::Liquidity, minted)->Ok_0;
            lemma_withdraw_effect(m2.entries, user, Token::Liquidity, minted, s1);
            assert(ledger::amount_in(s1, m.pool, Token::A) == ledger::amount_in(m2.entries, m.pool, Token::A));
            assert(ledger::amount_in(s1, m.pool, Token::B) == ledger::amount_in(m2.entries, m.pool, Token::B));
            assert(ledger::amount_in(s1, m.pool, Token::Liquidity) == ledger::amount_in(
                m2.entries,
                m.pool,
                Token::Liquidity,
            ));
            vstd::arithmetic::div_mod::lemma_div_multiples_vanish(amount_a as int, minted as int);
            vstd::arithmetic::div_mod::lemma_div_multiples_vanish(amount_b as int, minted as int);
            assert(amount_a * minted == minted * amount_a) by (nonlinear_arith);
            assert(amount_b * minted == minted * amount_b) by (nonlinear_arith);
        }
    }
}

} // verus!
