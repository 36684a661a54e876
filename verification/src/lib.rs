//! Core of a constant-product automated market maker (AMM) pair: a two-asset
//! liquidity pool that mints and burns fungible liquidity-provider shares,
//! executes swaps under the constant-product invariant with a 0.30% pool fee
//! and an optional treasury surcharge, and survives partial failures of its
//! asynchronous token transfers via an explicit lock-state machine with an
//! operator-driven recovery path.
//!
//! The pool arithmetic is over 256-bit unsigned integers; the external token
//! contracts are reached only through the host, which performs the transfers
//! that the pair requests and feeds the outcomes back into the state machine.

pub mod laws;
pub mod ledger;
pub mod math;
pub mod pair;
pub mod tracker;
pub mod u256;
