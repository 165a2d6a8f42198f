//! A constant-product liquidity pool: a per-address token ledger, the pricing
//! formulas of the pool, and the pool operations that tie them together, with
//! the properties that hold across operations (`laws`).
//!
//! Beside it stand a pool whose swaps arrive as secret inputs and are priced
//! against a fixed constant product (`zk_swap`), data guarded by partially
//! ordered security levels (`access`), and the ranking of dice throws in a game
//! of Mia (`mia`).
use vstd::prelude::*;

pub mod access;
pub mod address;
pub mod balance;
pub mod error;
pub mod laws;
pub mod ledger;
pub mod mia;
pub mod pool;
pub mod pricing;
pub mod zk_swap;

verus! {

} // verus!
