use vstd::prelude::*;
use crate::error::HelperError;

verus! {

/// One asset position: an opaque identifier key and an exact integer amount.
///
/// Identifiers are opaque keys; the host-facing layer maps concrete
/// denominations onto them. Amounts are exact unsigned integers — value
/// transfer tolerates no representational drift.
#[derive(Clone, Copy, Debug, PartialEq, Eq, Structural)]
pub struct AssetAmount {
    pub id: u64,
    pub amount: u128,
}

/// True when no identifier occurs twice in `s`.
pub open spec fn ids_unique(s: Seq<AssetAmount>) -> bool {
    forall|k: int, l: int| 0 <= k < l < s.len() ==> s[k].id != s[l].id
}

/// True when `s` holds an entry for `id`.
pub open spec fn has_id(s: Seq<AssetAmount>, id: u64) -> bool {
    exists|k: int| 0 <= k < s.len() && s[k].id == id
}

/// The amount recorded for `id` in `s`; zero when absent.
pub open spec fn amt_of(s: Seq<AssetAmount>, id: u64) -> u128
    decreases s.len(),
{
    if s.len() == 0 {
        0
    } else if s[0].id == id {
        s[0].amount
    } else {
        amt_of(s.skip(1), id)
    }
}

/// A basket: a mapping from asset identifier to amount, identifiers unique.
///
/// A deposited basket must further be non-empty with every amount strictly
/// positive ([`Basket::spec_valid_deposit`]); a balanced basket computed by
/// the balancer may carry zero amounts.
#[derive(Clone, Debug)]
pub struct Basket {
    pub entries: Vec<AssetAmount>,
}

impl Basket {
    /// Identifiers are unique.
    pub open spec fn wf(self) -> bool {
        ids_unique(self.entries@)
    }

    /// A valid deposit: unique identifiers, at least one entry, every
    /// amount strictly positive.
    pub open spec fn spec_valid_deposit(entries: Seq<AssetAmount>) -> bool {
        &&& ids_unique(entries)
        &&& entries.len() > 0
        &&& forall|k: int| 0 <= k < entries.len() ==> entries[k].amount > 0
    }

    /// Validates a deposited basket: accepted exactly when it is non-empty,
    /// every amount is strictly positive and no identifier repeats.
    pub fn try_from_entries(entries: Vec<AssetAmount>) -> (r: Result<Basket, HelperError>)
        ensures
            match r {
                Ok(b) => Self::spec_valid_deposit(entries@) && b.entries@ == entries@,
                Err(e) => !Self::spec_valid_deposit(entries@) && e == HelperError::InvalidInput,
            },
    {
        let n = entries.len();
        if n == 0 {
            return Err(HelperError::InvalidInput);
        }
        for k in 0..n
            invariant
                n == entries@.len(),
                forall|l: int| 0 <= l < k ==> entries@[l].amount > 0,
        {
            if entries[k].amount == 0 {
                return Err(HelperError::InvalidInput);
            }
        }
        for k in 0..n
            invariant
                n == entries@.len(),
                forall|k2: int, l2: int| 0 <= k2 < k && k2 < l2 < n ==> entries@[k2].id != entries@[l2].id,
        {
            for l in (k + 1)..n
                invariant
                    n == entries@.len(),
                    k < n,
                    forall|k2: int, l2: int| 0 <= k2 < k && k2 < l2 < n ==> entries@[k2].id != entries@[l2].id,
                    forall|l2: int| k < l2 < l ==> entries@[k as int].id != entries@[l2].id,
            {
                if entries[k].id == entries[l].id {
                    proof {
                        assert(entries@[k as int].id == entries@[l as int].id);
                        assert(!ids_unique(entries@));
                    }
                    return Err(HelperError::InvalidInput);
                }
            }
        }
        Ok(Basket { entries })
    }
}

/// When no entry carries `id`, the recorded amount is zero.
pub proof fn lemma_amt_of_absent(s: Seq<AssetAmount>, id: u64)
    requires
        !has_id(s, id),
    ensures
        amt_of(s, id) == 0,
    decreases s.len(),
{
    if s.len() > 0 {
        assert(!has_id(s.skip(1), id)) by {
            if has_id(s.skip(1), id) {
                let k = choose|k: int| 0 <= k < s.skip(1).len() && s.skip(1)[k].id == id;
                assert(s[k + 1].id == id);
            }
        }
        lemma_amt_of_absent(s.skip(1), id);
    }
}

/// With unique identifiers, the entry at `k` records `amt_of` for its id.
pub proof fn lemma_amt_of_at(s: Seq<AssetAmount>, k: int)
    requires
        ids_unique(s),
        0 <= k < s.len(),
    ensures
        amt_of(s, s[k].id) == s[k].amount,
    decreases s.len(),
{
    if k == 0 {
    } else {
        assert(s[0].id != s[k].id);
        assert(ids_unique(s.skip(1))) by {
            assert(forall|k2: int, l2: int|
                0 <= k2 < l2 < s.skip(1).len() ==> s.skip(1)[k2] == s[k2 + 1] && s.skip(1)[l2] == s[l2 + 1]);
        }
        assert(s.skip(1)[k - 1] == s[k]);
        lemma_amt_of_at(s.skip(1), k - 1);
    }
}

/// Looks up the amount recorded for `id`; zero when absent.
pub fn lookup_amount(entries: &Vec<AssetAmount>, id: u64) -> (r: u128)
    requires
        ids_unique(entries@),
    ensures
        r == amt_of(entries@, id),
{
    let n = entries.len();
    for k in 0..n
        invariant
            n == entries@.len(),
            ids_unique(entries@),
            forall|l: int| 0 <= l < k ==> entries@[l].id != id,
    {
        if entries[k].id == id {
            proof {
                lemma_amt_of_at(entries@, k as int);
            }
            return entries[k].amount;
        }
    }
    proof {
        assert(!has_id(entries@, id));
        lemma_amt_of_absent(entries@, id);
    }
    0
}

} // verus!
