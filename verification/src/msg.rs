use vstd::prelude::*;
use crate::asset::{AssetAmount, Basket};
use crate::pool::PoolRef;

verus! {

/// Creation-time configuration: the factory this system consults for fee
/// information.
#[derive(Clone, Debug)]
pub struct InstantiateMsg {
    pub astroport_factory: String,
}

/// The requests this system accepts.
#[derive(Debug)]
pub enum ExecuteMsg {
    /// A caller's balancing deposit: re-balance `assets` to the pool's
    /// ratio, provide them as liquidity, and send at least `min_out`
    /// minted shares to `recipient` (the caller when absent).
    BalancingProvideLiquidity {
        assets: Vec<AssetAmount>,
        min_out: u128,
        pool: PoolRef,
        recipient: Option<String>,
    },
    /// An internal continuation; accepted only from this system's own
    /// account.
    Callback(CallbackMsg),
}

/// The continuation payload threaded through self-addressed follow-up
/// messages: each stage is a fresh invocation, so the payload carries the
/// whole state the stage needs.
#[derive(Debug)]
pub enum CallbackMsg {
    /// Provide the balanced basket as liquidity, then continue.
    ProvideLiquidity { assets: Basket, min_out: u128, pool: PoolRef, recipient: String },
    /// Resolve the minted delta against the recorded balance and transfer
    /// it to the recipient. This is the terminal stage.
    ReturnLpTokens { pool: PoolRef, balance_before: u128, min_out: u128, recipient: String },
}

/// The read queries this system answers.
#[derive(Clone, Debug)]
pub enum QueryMsg {
    /// The configured factory reference.
    AstroportFactory {},
}

/// The migration request. It carries nothing: migrations change no state.
#[derive(Clone, Copy, Debug, PartialEq, Eq, Structural)]
pub struct MigrateMsg {}

} // verus!
