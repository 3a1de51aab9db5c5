//! Verified core of a liquidity-balancing helper.
//!
//! A caller deposits an arbitrary, possibly imbalanced basket of fungible
//! assets; the helper computes the trades that re-balance the basket to a
//! target pool's reserve ratio, supplies the balanced basket as liquidity,
//! and forwards the minted pool shares to a recipient. The sequence runs as
//! several causally-ordered ledger steps carried by self-addressed
//! continuation messages; this crate holds the decision logic of every step
//! as pure, verified functions, while the host-facing layer performs the
//! actual ledger reads and dispatches.

pub mod error;
pub mod asset;
pub mod pool;
pub mod decimal;
pub mod fees;
pub mod balancer;
pub mod accountant;
pub mod msg;
pub mod stages;
pub mod helpers;
