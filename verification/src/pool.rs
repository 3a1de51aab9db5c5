use vstd::prelude::*;
use crate::asset::AssetAmount;
use crate::error::HelperError;

verus! {

/// An opaque reference to one pool instance: enough to address the pool and
/// its share token across continuation stages without re-reading reserves.
#[derive(Clone, Copy, Debug, PartialEq, Eq, Structural)]
pub struct PoolRef {
    /// Identifier key of the pool instance.
    pub pool_id: u64,
    /// Identifier key of the token the pool mints for liquidity providers.
    pub share_token: u64,
}

/// One pool as the pool capability reports it: its reference, and its
/// current reserves over the pool's required asset set.
///
/// Reserves are kept in strictly ascending identifier order, so every
/// computation over them is reproducible whatever order the deposit used.
#[derive(Clone, Debug)]
pub struct PoolInfo {
    pub pool_id: u64,
    pub share_token: u64,
    pub reserves: Vec<AssetAmount>,
}

/// Reserves are well-formed: at least one asset, identifiers strictly
/// ascending (hence unique), every reserve strictly positive.
pub open spec fn reserves_wf(rs: Seq<AssetAmount>) -> bool {
    &&& rs.len() > 0
    &&& forall|k: int, l: int| 0 <= k < l < rs.len() ==> rs[k].id < rs[l].id
    &&& forall|k: int| 0 <= k < rs.len() ==> rs[k].amount > 0
}

impl PoolInfo {
    pub open spec fn wf(self) -> bool {
        reserves_wf(self.reserves@)
    }

    /// The continuation-sized reference to this pool.
    pub fn reference(&self) -> (r: PoolRef)
        ensures
            r.pool_id == self.pool_id,
            r.share_token == self.share_token,
    {
        PoolRef { pool_id: self.pool_id, share_token: self.share_token }
    }

    /// Validates a pool capability response: accepted exactly when the
    /// reserve list is non-empty, strictly ascending by identifier, and
    /// every reserve is positive; anything else is a malformed response.
    pub fn try_new(pool_id: u64, share_token: u64, reserves: Vec<AssetAmount>) -> (r: Result<
        PoolInfo,
        HelperError,
    >)
        ensures
            match r {
                Ok(p) => reserves_wf(reserves@) && p.pool_id == pool_id && p.share_token
                    == share_token && p.reserves@ == reserves@,
                Err(e) => !reserves_wf(reserves@) && e == HelperError::UpstreamQueryFailure,
            },
    {
        let n = reserves.len();
        if n == 0 {
            return Err(HelperError::UpstreamQueryFailure);
        }
        for k in 0..n
            invariant
                n == reserves@.len(),
                forall|l: int| 0 <= l < k ==> reserves@[l].amount > 0,
                forall|l: int| 0 < l < k ==> reserves@[l - 1].id < #[trigger] reserves@[l].id,
        {
            if reserves[k].amount == 0 {
                return Err(HelperError::UpstreamQueryFailure);
            }
            if k > 0 && reserves[k - 1].id >= reserves[k].id {
                return Err(HelperError::UpstreamQueryFailure);
            }
        }
        proof {
            lemma_ascending_pairwise(reserves@);
        }
        Ok(PoolInfo { pool_id, share_token, reserves })
    }
}

/// Adjacent ascending identifiers are pairwise ascending.
proof fn lemma_ascending_pairwise(rs: Seq<AssetAmount>)
    requires
        forall|l: int| 0 < l < rs.len() ==> rs[l - 1].id < #[trigger] rs[l].id,
    ensures
        forall|k: int, l: int| 0 <= k < l < rs.len() ==> rs[k].id < rs[l].id,
{
    assert forall|k: int, l: int| 0 <= k < l < rs.len() implies rs[k].id < rs[l].id by {
        lemma_ascending_step(rs, k, l);
    }
}

proof fn lemma_ascending_step(rs: Seq<AssetAmount>, k: int, l: int)
    requires
        forall|m: int| 0 < m < rs.len() ==> rs[m - 1].id < #[trigger] rs[m].id,
        0 <= k < l < rs.len(),
    ensures
        rs[k].id < rs[l].id,
    decreases l - k,
{
    if l == k + 1 {
    } else {
        lemma_ascending_step(rs, k, l - 1);
    }
}

} // verus!
