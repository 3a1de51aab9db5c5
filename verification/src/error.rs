use vstd::prelude::*;

verus! {

/// Failure taxonomy of the helper.
///
/// Every failure aborts the whole top-level request; nothing is retried and
/// no partial success is observable. `AccountingInvariantViolation` signals a
/// logic defect (a negative balance delta), not a user condition, and is
/// distinguishable through [`HelperError::is_defect`].
#[derive(Clone, Copy, Debug, PartialEq, Eq, Structural)]
pub enum HelperError {
    /// The deposited basket is empty or malformed.
    InvalidInput,
    /// The deposit contains an asset the target pool does not use.
    UnsupportedAsset,
    /// A continuation-stage message came from a sender other than this
    /// system's own account.
    Unauthorized,
    /// The minted share amount fell below the caller's minimum.
    SlippageExceeded,
    /// A computed balance delta was negative.
    AccountingInvariantViolation,
    /// The factory or pool capability was unreachable or returned a
    /// malformed response.
    UpstreamQueryFailure,
    /// An exact-integer intermediate value exceeded the machine's range.
    ValueOverflow,
}

impl HelperError {
    /// True exactly for the errors that signal an internal defect rather
    /// than a user-facing condition.
    pub fn is_defect(&self) -> (r: bool)
        ensures
            r == (*self == HelperError::AccountingInvariantViolation),
    {
        *self == HelperError::AccountingInvariantViolation
    }
}

} // verus!
