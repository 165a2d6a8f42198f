//! The ways in which a pool operation can be refused.
use vstd::prelude::*;

verus! {

/// Why a pool operation was refused. A refused operation leaves the pool unchanged.
#[derive(Clone, Copy, Debug, PartialEq, Eq, Structural)]
pub enum PoolError {
    /// The fee is above 1000 per mille, or the two tokens have the same address.
    InvalidConfiguration,
    /// A swap was asked of a pool with an empty reserve.
    PoolNotLiquid,
    /// Initial liquidity was offered to a pool whose reserves are both non-empty.
    AlreadyLiquid,
    /// The token address is neither of the pool's two tokens.
    UnknownToken,
    /// A holder was asked for more than it holds.
    InsufficientBalance,
    /// An amount would leave the range of `u128`.
    Overflow,
    /// A swap would give less than the caller's stated minimum.
    SlippageExceeded,
    /// A liquidity provision would mint no shares.
    ZeroLiquidityMinted,
    /// The token contract reported that a deposit transfer failed.
    TransferFailed,
}

} // verus!
