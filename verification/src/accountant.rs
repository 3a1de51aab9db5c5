use vstd::prelude::*;
use crate::error::HelperError;

verus! {

/// A balance snapshot: token, holder (this system's own account), and the
/// amount held when the snapshot was taken.
#[derive(Clone, Debug)]
pub struct Checkpoint {
    /// Identifier key of the token whose balance was recorded.
    pub token: u64,
    /// Account whose balance was recorded.
    pub holder: String,
    /// The balance at the checkpoint.
    pub snapshot: u128,
}

/// What resolving a checkpoint against a fresh balance yields: the delta,
/// or the defect signal when the fresh balance fell below the snapshot.
pub open spec fn spec_resolve(snapshot: u128, current: u128) -> Result<u128, HelperError> {
    if current < snapshot {
        Err(HelperError::AccountingInvariantViolation)
    } else {
        Ok((current - snapshot) as u128)
    }
}

/// Records a balance snapshot at the start of a stage. The balance handed
/// in must be freshly read, never a cached value; the host-facing layer
/// reads it within the same stage that calls this.
pub fn checkpoint(token: u64, holder: String, current_balance: u128) -> (c: Checkpoint)
    ensures
        c.token == token,
        c.holder@ == holder@,
        c.snapshot == current_balance,
{
    Checkpoint { token, holder, snapshot: current_balance }
}

/// Resolves a checkpoint against a freshly re-read balance: the delta is
/// what this operation produced, however large the unrelated balance the
/// account already held. A negative delta is an accounting defect, never
/// retried.
pub fn resolve(c: &Checkpoint, current_balance: u128) -> (r: Result<u128, HelperError>)
    ensures
        r == spec_resolve(c.snapshot, current_balance),
{
    if current_balance < c.snapshot {
        Err(HelperError::AccountingInvariantViolation)
    } else {
        Ok(current_balance - c.snapshot)
    }
}

/// Accounting soundness: whatever balance the holder already had, the
/// resolved delta after a mint equals exactly the minted amount — the
/// delta, not the absolute balance, is the meaningful quantity.
pub proof fn lemma_delta_isolated(prior: u128, minted: u128)
    requires
        prior + minted <= u128::MAX,
    ensures
        spec_resolve(prior, (prior + minted) as u128) == Ok::<u128, HelperError>(minted),
{
}

} // verus!
