//! The pricing formulas of a constant-product pool. All division rounds down.
use vstd::prelude::*;
use crate::error::PoolError;

verus! {

/// The largest value of `u128`, as an integer.
pub open spec fn u128_max() -> int {
    u128::MAX as int
}

/// `r` is the integer square root of `n`, rounded down.
pub open spec fn is_floor_sqrt(r: int, n: int) -> bool {
    0 <= r && r * r <= n < (r + 1) * (r + 1)
}

/// The integer square root of `n`, rounded down, counted up from zero.
pub open spec fn floor_sqrt(n: nat) -> nat
    decreases n,
{
    if n == 0 {
        0
    } else {
        let r = floor_sqrt((n - 1) as nat);
        if (r + 1) * (r + 1) <= n {
            r + 1
        } else {
            r
        }
    }
}

/// `floor_sqrt` is the integer square root, rounded down.
pub proof fn lemma_floor_sqrt(n: nat)
    ensures
        is_floor_sqrt(floor_sqrt(n) as int, n as int),
    decreases n,
{
    if n > 0 {
        lemma_floor_sqrt((n - 1) as nat);
        let r = floor_sqrt((n - 1) as nat) as int;
        assert(r * r <= n - 1 < (r + 1) * (r + 1));
        assert((r + 1) * (r + 1) < (r + 2) * (r + 2)) by (nonlinear_arith)
            requires
                r >= 0,
        ;
    }
}

/// A number has one integer square root, rounded down.
pub proof fn lemma_floor_sqrt_unique(r: int, n: nat)
    requires
        is_floor_sqrt(r, n as int),
    ensures
        r == floor_sqrt(n),
{
    lemma_floor_sqrt(n);
    let s = floor_sqrt(n) as int;
    if r < s {
        assert((r + 1) * (r + 1) <= s * s) by (nonlinear_arith)
            requires
                0 <= r < s,
        ;
    } else if s < r {
        assert((s + 1) * (s + 1) <= r * r) by (nonlinear_arith)
            requires
                0 <= s < r,
        ;
    }
}

/// What is left of each thousand units once a fee of `fee_per_mille` is taken.
pub open spec fn remainder_ratio(fee_per_mille: int) -> int {
    1000 - fee_per_mille
}

/// The output of a swap of `amount_in` against reserves `reserve_in` and `reserve_out`.
pub open spec fn swap_output(reserve_in: int, reserve_out: int, amount_in: int, fee_per_mille: int) -> int {
    (remainder_ratio(fee_per_mille) * amount_in * reserve_out) / (1000 * reserve_in
        + remainder_ratio(fee_per_mille) * amount_in)
}

/// Whether a step of the swap formula leaves the range of `u128`.
pub open spec fn swap_overflows(reserve_in: int, reserve_out: int, amount_in: int, fee_per_mille: int) -> bool {
    let net = remainder_ratio(fee_per_mille) * amount_in;
    net > u128_max() || net * reserve_out > u128_max() || 1000 * reserve_in + net > u128_max()
}

/// How much of the other token must accompany `amount_in`: the fair equivalent,
/// rounded down, plus one; nothing for nothing.
pub open spec fn equivalent_output(amount_in: int, reserve_in: int, reserve_out: int) -> int {
    if amount_in > 0 {
        amount_in * reserve_out / reserve_in + 1
    } else {
        0
    }
}

/// The shares minted for `amount_in` when `total_shares` stand against `reserve_in`.
pub open spec fn shares_minted(amount_in: int, reserve_in: int, total_shares: int) -> int {
    amount_in * total_shares / reserve_in
}

/// Whether a step of the provision formulas leaves the range of `u128`.
pub open spec fn provision_overflows(amount_in: int, reserve_in: int, reserve_out: int, total_shares: int) -> bool {
    ||| amount_in > 0 && amount_in * reserve_out > u128_max()
    ||| equivalent_output(amount_in, reserve_in, reserve_out) > u128_max()
    ||| amount_in * total_shares > u128_max()
}

/// The part of `reserve` that `shares_burned` of `total_shares` redeem.
pub open spec fn redeemed(shares_burned: int, reserve: int, total_shares: int) -> int {
    reserve * shares_burned / total_shares
}

/// `numerator / denominator`, rounded up.
pub open spec fn ceil_div(numerator: int, denominator: int) -> int {
    if numerator % denominator == 0 {
        numerator / denominator
    } else {
        numerator / denominator + 1
    }
}

/// The integer square root of `n`, rounded down.
pub fn u128_sqrt(n: u128) -> (r: u128)
    ensures
        is_floor_sqrt(r as int, n as int),
{
    let mut lo: u128 = 0;
    let mut hi: u128 = 0x1_0000_0000_0000_0000;
    assert(n < hi * hi) by (nonlinear_arith)
        requires
            hi == 0x1_0000_0000_0000_0000u128,
            n <= u128::MAX,
    ;
    while hi - lo > 1
        invariant
            lo < hi <= 0x1_0000_0000_0000_0000u128,
            lo * lo <= n,
            n < hi * hi,
        decreases hi - lo,
    {
        let mid: u128 = lo + (hi - lo) / 2;
        assert(mid * mid <= u128::MAX) by (nonlinear_arith)
            requires
                mid < 0x1_0000_0000_0000_0000u128,
        ;
        if mid * mid <= n {
            lo = mid;
        } else {
            hi = mid;
        }
    }
    lo
}

/// The shares minted for the first provision of liquidity: the integer square
/// root of the product of the two amounts, which makes the value of a share
/// independent of the ratio the pool was seeded with.
pub fn initial_liquidity_tokens(token_a_amount: u128, token_b_amount: u128) -> (r: Result<u128, PoolError>)
    ensures
        r is Err <==> token_a_amount * token_b_amount > u128_max(),
        r matches Err(e) ==> e == PoolError::Overflow,
        r matches Ok(shares) ==> shares == floor_sqrt((token_a_amount * token_b_amount) as nat),
{
    match token_a_amount.checked_mul(token_b_amount) {
        Some(product) => {
            let shares = u128_sqrt(product);
            proof {
                lemma_floor_sqrt_unique(shares as int, product as nat);
            }
            Ok(shares)
        },
        None => Err(PoolError::Overflow),
    }
}

/// How much of the output token a swap of `swap_amount_in` gives, after a fee of
/// `swap_fee_per_mille` is kept by the pool.
pub fn calculate_swap_to_amount(
    pool_token_in: u128,
    pool_token_out: u128,
    swap_amount_in: u128,
    swap_fee_per_mille: u16,
) -> (r: Result<u128, PoolError>)
    requires
        pool_token_in > 0,
        swap_fee_per_mille <= 1000,
    ensures
        r is Err <==> swap_overflows(
            pool_token_in as int,
            pool_token_out as int,
            swap_amount_in as int,
            swap_fee_per_mille as int,
        ),
        r matches Err(e) ==> e == PoolError::Overflow,
        r matches Ok(out) ==> out == swap_output(
            pool_token_in as int,
            pool_token_out as int,
            swap_amount_in as int,
            swap_fee_per_mille as int,
        ),
        swap_fee_per_mille == 1000 && 1000 * pool_token_in <= u128_max() ==> r == Ok::<u128, PoolError>(0),
{
    let remainder: u128 = (1000 - swap_fee_per_mille) as u128;
    assert(remainder == 0 ==> remainder * swap_amount_in == 0 && 0 * pool_token_out == 0)
        by (nonlinear_arith);
    let net = match remainder.checked_mul(swap_amount_in) {
        Some(v) => v,
        None => return Err(PoolError::Overflow),
    };
    let numerator = match net.checked_mul(pool_token_out) {
        Some(v) => v,
        None => return Err(PoolError::Overflow),
    };
    let scaled_reserve = match 1000u128.checked_mul(pool_token_in) {
        Some(v) => v,
        None => return Err(PoolError::Overflow),
    };
    let denominator = match scaled_reserve.checked_add(net) {
        Some(v) => v,
        None => return Err(PoolError::Overflow),
    };
    Ok(numerator / denominator)
}

/// For a provision of `token_in_amount`, the amount of the other token that must
/// come with it and the shares it mints. The `+ 1` rounds against the provider,
/// so that existing holders never lose value to rounding.
pub fn calculate_equivalent_and_minted_tokens(
    token_in_amount: u128,
    token_in_pool: u128,
    token_out_pool: u128,
    total_minted_liquidity: u128,
) -> (r: Result<(u128, u128), PoolError>)
    requires
        token_in_pool > 0,
    ensures
        r is Err <==> provision_overflows(
            token_in_amount as int,
            token_in_pool as int,
            token_out_pool as int,
            total_minted_liquidity as int,
        ),
        r matches Err(e) ==> e == PoolError::Overflow,
        r matches Ok((equivalent, minted)) ==> {
            &&& equivalent == equivalent_output(
                token_in_amount as int,
                token_in_pool as int,
                token_out_pool as int,
            )
            &&& minted == shares_minted(
                token_in_amount as int,
                token_in_pool as int,
                total_minted_liquidity as int,
            )
        },
{
    let token_out_equivalent: u128 = if token_in_amount > 0 {
        let product = match token_in_amount.checked_mul(token_out_pool) {
            Some(v) => v,
            None => return Err(PoolError::Overflow),
        };
        let fair = product / token_in_pool;
        if fair == u128::MAX {
            return Err(PoolError::Overflow);
        }
        fair + 1
    } else {
        0
    };
    let minted_liquidity_tokens = match token_in_amount.checked_mul(total_minted_liquidity) {
        Some(v) => v / token_in_pool,
        None => return Err(PoolError::Overflow),
    };
    Ok((token_out_equivalent, minted_liquidity_tokens))
}

/// The amounts of token A and token B that burning `liquidity_token_amount` of
/// `minted_liquidity` shares redeems from the pools.
pub fn calculate_reclaim_output(
    liquidity_token_amount: u128,
    pool_a: u128,
    pool_b: u128,
    minted_liquidity: u128,
) -> (r: Result<(u128, u128), PoolError>)
    requires
        minted_liquidity > 0,
    ensures
        r is Err <==> pool_a * liquidity_token_amount > u128_max() || pool_b
            * liquidity_token_amount > u128_max(),
        r matches Err(e) ==> e == PoolError::Overflow,
        r matches Ok((a_output, b_output)) ==> {
            &&& a_output == redeemed(
                liquidity_token_amount as int,
                pool_a as int,
                minted_liquidity as int,
            )
            &&& b_output == redeemed(
                liquidity_token_amount as int,
                pool_b as int,
                minted_liquidity as int,
            )
        },
{
    let a_product = match pool_a.checked_mul(liquidity_token_amount) {
        Some(v) => v,
        None => return Err(PoolError::Overflow),
    };
    let b_product = match pool_b.checked_mul(liquidity_token_amount) {
        Some(v) => v,
        None => return Err(PoolError::Overflow),
    };
    Ok((a_product / minted_liquidity, b_product / minted_liquidity))
}

/// `numerator / denominator`, rounded up; an error when `denominator` is zero.
pub fn u128_division_ceil(numerator: u128, denominator: u128) -> (r: Result<u128, &'static str>)
    ensures
        r is Err <==> denominator == 0,
        r matches Err(e) ==> e@ == "Division by zero"@,
        r matches Ok(q) ==> q == ceil_div(numerator as int, denominator as int),
{
    let div_floor = match numerator.checked_div(denominator) {
        Some(v) => v,
        None => return Err("Division by zero"),
    };
    let rem = match numerator.checked_rem(denominator) {
        Some(v) => v,
        None => return Err("Division by zero"),
    };
    if rem != 0 {
        assert(div_floor < u128::MAX) by (nonlinear_arith)
            requires
                denominator >= 2,
                div_floor == numerator / denominator,
                numerator <= u128::MAX,
        ;
        Ok(div_floor + 1)
    } else {
        Ok(div_floor)
    }
}

} // verus!
