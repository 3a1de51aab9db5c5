use vstd::prelude::*;
use crate::decimal::{Rate, ATOMICS_PER_BASIS_POINT};
use crate::error::HelperError;

verus! {

/// The pool variant tag: a tagged sum dispatched through the pool
/// capability, extended by adding tags, never by subclassing.
#[derive(Clone, Debug)]
pub enum PairType {
    /// Constant-product pool.
    Xyk,
    /// Stable-swap pool.
    Stable,
    /// A custom pool variant, named.
    Custom(String),
}

/// The query this system sends to the external factory collaborator.
#[derive(Clone, Debug)]
pub enum FactoryQueryMsg {
    /// Fee parameters for pools of one pair type.
    FeeInfo { pair_type: PairType },
}

/// The factory's raw answer: basis points in `0 ..= 10_000`.
#[derive(Clone, Debug)]
pub struct FeeInfoResponse {
    /// Recipient of governance fees, when one is set.
    pub fee_address: Option<String>,
    /// Total fee charged per swap, in basis points.
    pub total_fee_bps: u16,
    /// Share of the fee sent to the maker, in basis points.
    pub maker_fee_bps: u16,
}

/// Fee structure of a pool as fractional rates.
///
/// Invariant of every value this module hands out:
/// `maker_fee_rate <= total_fee_rate`, both within `0 ..= 1`.
#[derive(Clone, Debug)]
pub struct FeeInfo {
    /// Recipient of governance fees, when one is set.
    pub fee_address: Option<String>,
    /// Total fee charged per swap.
    pub total_fee_rate: Rate,
    /// Share of the fee sent to the maker.
    pub maker_fee_rate: Rate,
}

/// A factory answer is well-formed when both counts lie in basis-point
/// range and the maker share does not exceed the total.
pub open spec fn fee_response_wf(resp: FeeInfoResponse) -> bool {
    &&& resp.total_fee_bps <= 10000
    &&& resp.maker_fee_bps <= resp.total_fee_bps
}

/// Translates the factory's basis-point answer into fractional rates,
/// exactly: each basis point is one ten-thousandth. A malformed answer —
/// counts out of basis-point range, or a maker share above the total — is
/// an upstream failure, never silently repaired.
pub fn resolve_fee_info(resp: FeeInfoResponse) -> (r: Result<FeeInfo, HelperError>)
    ensures
        match r {
            Ok(info) => {
                &&& fee_response_wf(resp)
                &&& info.fee_address == resp.fee_address
                &&& info.total_fee_rate.atomics == resp.total_fee_bps * ATOMICS_PER_BASIS_POINT
                &&& info.maker_fee_rate.atomics == resp.maker_fee_bps * ATOMICS_PER_BASIS_POINT
                &&& info.maker_fee_rate.atomics <= info.total_fee_rate.atomics
            },
            Err(e) => !fee_response_wf(resp) && e == HelperError::UpstreamQueryFailure,
        },
{
    if resp.total_fee_bps > 10000 || resp.maker_fee_bps > resp.total_fee_bps {
        return Err(HelperError::UpstreamQueryFailure);
    }
    let total_fee_rate = Rate::from_basis_points(resp.total_fee_bps);
    let maker_fee_rate = Rate::from_basis_points(resp.maker_fee_bps);
    Ok(FeeInfo { fee_address: resp.fee_address, total_fee_rate, maker_fee_rate })
}

} // verus!
