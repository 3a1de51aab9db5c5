use vstd::prelude::*;
use crate::asset::AssetAmount;
use crate::msg::ExecuteMsg;
use crate::pool::PoolRef;

verus! {

/// Client-side wrapper around this system's account address, for other
/// systems that wish to call it. It only builds request values; the
/// host-facing layer serializes them and attaches the deposited funds.
#[derive(Clone, Debug)]
pub struct LiquidityHelper(pub String);

impl LiquidityHelper {
    /// The wrapped account address.
    pub fn addr(&self) -> (a: String)
        ensures
            a@ == self.0@,
    {
        self.0.clone()
    }

    /// Builds a balancing deposit request.
    pub fn balancing_provide_liquidity(
        &self,
        assets: Vec<AssetAmount>,
        min_out: u128,
        pool: PoolRef,
        recipient: Option<String>,
    ) -> (m: ExecuteMsg)
        ensures
            m matches ExecuteMsg::BalancingProvideLiquidity {
                assets: a,
                min_out: mo,
                pool: p,
                recipient: r,
            } && a@ == assets@ && mo == min_out && p == pool && r == recipient,
    {
        ExecuteMsg::BalancingProvideLiquidity { assets, min_out, pool, recipient }
    }
}

} // verus!
