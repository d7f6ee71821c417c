//! Accounting and execution engine of a constant-product liquidity pool.
//!
//! Pools are identified by an unordered pair of assets; liquidity providers
//! deposit both assets and receive claim tokens, traders swap one asset for
//! the other at a price set by the pool's reserves.

pub mod store;
pub mod types;
pub mod fee;
pub mod math;
pub mod account;
pub mod ledger;
pub mod registry;
pub mod amm;
pub mod laws;
