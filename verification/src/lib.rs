//! A collateralized-debt-position minting engine.
//!
//! Users lock collateral and mint a synthetic asset against it, subject to a
//! minimum collateral ratio enforced in 18-digit fixed-point arithmetic. The
//! crate holds the position lifecycle engine (open, deposit, withdraw, mint,
//! burn), the asset/config registry, and the paginated position queries, each
//! with a contract that pins down its result exactly.

pub mod arith;
pub mod asset;
pub mod asserts;
pub mod decimal;
pub mod error;
pub mod pairs;
pub mod positions;
pub mod laws;
pub mod queries;
pub mod state;
