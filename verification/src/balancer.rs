use vstd::prelude::*;
use vstd::arithmetic::div_mod::{
    lemma_fundamental_div_mod,
    lemma_mod_bound,
};
use vstd::arithmetic::mul::{
    lemma_mul_inequality,
    lemma_mul_strict_inequality,
    lemma_mul_strict_inequality_converse,
    lemma_mul_increases,
    lemma_mul_nonnegative,
    lemma_mul_strictly_positive,
    lemma_mul_is_commutative,
    lemma_mul_is_associative,
};
use vstd::pervasive::VecAdditionalExecFns;
use crate::asset::{amt_of, has_id, ids_unique, lookup_amount, AssetAmount, Basket};
use crate::error::HelperError;
use crate::pool::{reserves_wf, PoolInfo};

verus! {

// ------------------------------------------------------------------
// The value model.
//
// A deposit is valued at the pool's spot ratios: one unit of the asset at
// pool position `i` counts as `cofactor(rs, i)` value units, where the
// cofactor is the product of every other reserve. Dividing by the product
// of all reserves, that is exactly `1 / rs[i]` — the spot worth of one
// unit of asset `i` in a pool whose per-asset values are equal — but kept
// as exact integers throughout. The balanced basket gives each asset an
// equal slice of the deposit's total value, converted back at spot.
// ------------------------------------------------------------------

/// Product of all reserve amounts.
pub open spec fn reserve_product(rs: Seq<AssetAmount>) -> int
    decreases rs.len(),
{
    if rs.len() == 0 {
        1
    } else {
        reserve_product(rs.drop_last()) * rs.last().amount
    }
}

/// Product of every reserve amount except the one at `i`: the exact value,
/// in common units, of one unit of the asset at pool position `i`.
pub open spec fn cofactor(rs: Seq<AssetAmount>, i: int) -> int {
    reserve_product(rs.update(i, AssetAmount { id: rs[i].id, amount: 1 }))
}

/// The deposited amount aligned to pool position `i` (zero when absent).
pub open spec fn dep_amt(deposit: Seq<AssetAmount>, rs: Seq<AssetAmount>, i: int) -> int {
    amt_of(deposit, rs[i].id) as int
}

/// Total deposit value over the first `k` pool positions, in common units.
pub open spec fn value_num_prefix(deposit: Seq<AssetAmount>, rs: Seq<AssetAmount>, k: int) -> int
    decreases k,
{
    if k <= 0 {
        0
    } else {
        value_num_prefix(deposit, rs, k - 1) + dep_amt(deposit, rs, k - 1) * cofactor(rs, k - 1)
    }
}

/// Total deposit value in common units.
pub open spec fn value_num(deposit: Seq<AssetAmount>, rs: Seq<AssetAmount>) -> int {
    value_num_prefix(deposit, rs, rs.len() as int)
}

/// Common denominator of one asset's target slice: `n` equal slices, each
/// converted back at spot (division by the reserve product).
pub open spec fn value_den(rs: Seq<AssetAmount>) -> int {
    rs.len() * reserve_product(rs)
}

/// The balanced basket's amount for the asset at pool position `i`:
/// `reserve_i * total_value / (n * reserve_product)`, rounded down.
pub open spec fn target_amt(deposit: Seq<AssetAmount>, rs: Seq<AssetAmount>, i: int) -> int {
    (rs[i].amount * value_num(deposit, rs)) / value_den(rs)
}

/// Every deposited asset belongs to the pool's required asset set.
pub open spec fn deposit_supported(deposit: Seq<AssetAmount>, rs: Seq<AssetAmount>) -> bool {
    forall|k: int| 0 <= k < deposit.len() ==> #[trigger] has_id(rs, deposit[k].id)
}

/// Every intermediate of the exact-integer computation fits the machine.
pub open spec fn fits_u128(x: int) -> bool {
    x <= u128::MAX as int
}

/// The whole balancing computation stays within exact `u128` arithmetic.
pub open spec fn overflow_free(deposit: Seq<AssetAmount>, rs: Seq<AssetAmount>) -> bool {
    &&& fits_u128(reserve_product(rs))
    &&& fits_u128(value_den(rs))
    &&& forall|i: int|
        0 <= i < rs.len() ==> #[trigger] fits_u128(rs[i].amount * value_num(deposit, rs))
}

// ------------------------------------------------------------------
// Swap plans.
// ------------------------------------------------------------------

/// One swap instruction: spend `amount` of the `offer` asset for the `ask`
/// asset on the target pool. The balancer only plans; it executes nothing.
#[derive(Clone, Copy, Debug, PartialEq, Eq, Structural)]
pub struct SwapInstruction {
    pub offer: u64,
    pub ask: u64,
    pub amount: u128,
}

/// A balancing plan: the ordered swaps, then the balanced basket the
/// liquidity provision uses.
#[derive(Debug)]
pub struct BalancePlan {
    pub swaps: Vec<SwapInstruction>,
    pub basket: Basket,
}

/// Swaps come in a fixed order: ascending offer identifier, then ascending
/// ask identifier — reproducible whatever order the deposit used.
pub open spec fn swaps_ordered(swaps: Seq<SwapInstruction>) -> bool {
    forall|k: int, l: int|
        0 <= k < l < swaps.len() ==> (swaps[k].offer < swaps[l].offer || (swaps[k].offer
            == swaps[l].offer && swaps[k].ask < swaps[l].ask))
}

/// Total amount the plan spends from the asset with identifier `id`.
pub open spec fn offered_total(swaps: Seq<SwapInstruction>, id: u64) -> int
    decreases swaps.len(),
{
    if swaps.len() == 0 {
        0
    } else {
        offered_total(swaps.drop_last(), id) + if swaps.last().offer == id {
            swaps.last().amount as int
        } else {
            0
        }
    }
}

/// A single planned swap is meaningful: positive, between two distinct
/// pool assets, routed from a surplus asset into a deficit asset.
pub open spec fn swap_wf(s: SwapInstruction, deposit: Seq<AssetAmount>, rs: Seq<AssetAmount>) -> bool {
    &&& s.amount > 0
    &&& s.offer != s.ask
    &&& exists|i: int|
        0 <= i < rs.len() && rs[i].id == s.offer && dep_amt(deposit, rs, i) > target_amt(
            deposit,
            rs,
            i,
        )
    &&& exists|i: int|
        0 <= i < rs.len() && rs[i].id == s.ask && dep_amt(deposit, rs, i) < target_amt(
            deposit,
            rs,
            i,
        )
}

/// The whole plan is well-formed: deterministically ordered, every swap
/// meaningful, and no asset spends more than the deposit held of it.
pub open spec fn swap_plan_ok(
    swaps: Seq<SwapInstruction>,
    deposit: Seq<AssetAmount>,
    rs: Seq<AssetAmount>,
) -> bool {
    &&& swaps_ordered(swaps)
    &&& forall|k: int| 0 <= k < swaps.len() ==> swap_wf(#[trigger] swaps[k], deposit, rs)
    &&& forall|i: int|
        0 <= i < rs.len() ==> offered_total(swaps, rs[i].id) <= dep_amt(deposit, rs, i)
}

// ------------------------------------------------------------------
// Arithmetic groundwork.
// ------------------------------------------------------------------

/// A product of positive reserves is positive.
pub proof fn lemma_reserve_product_positive(rs: Seq<AssetAmount>)
    requires
        forall|k: int| 0 <= k < rs.len() ==> rs[k].amount > 0,
    ensures
        reserve_product(rs) >= 1,
    decreases rs.len(),
{
    if rs.len() > 0 {
        lemma_reserve_product_positive(rs.drop_last());
        lemma_mul_strictly_positive(reserve_product(rs.drop_last()), rs.last().amount as int);
        lemma_mul_increases(reserve_product(rs.drop_last()), rs.last().amount as int);
    }
}

/// A cofactor of positive reserves is positive.
pub proof fn lemma_cofactor_positive(rs: Seq<AssetAmount>, i: int)
    requires
        forall|k: int| 0 <= k < rs.len() ==> rs[k].amount > 0,
        0 <= i < rs.len(),
    ensures
        cofactor(rs, i) >= 1,
{
    let u = rs.update(i, AssetAmount { id: rs[i].id, amount: 1 });
    assert(forall|k: int| 0 <= k < u.len() ==> u[k].amount > 0);
    lemma_reserve_product_positive(u);
}

/// The reserve product splits at any position: the reserve there times the
/// product of all the others.
pub proof fn lemma_product_split(rs: Seq<AssetAmount>, i: int)
    requires
        0 <= i < rs.len(),
    ensures
        reserve_product(rs) == rs[i].amount * cofactor(rs, i),
    decreases rs.len(),
{
    let one = AssetAmount { id: rs[i].id, amount: 1 };
    let u = rs.update(i, one);
    if i == rs.len() - 1 {
        assert(u.drop_last() =~= rs.drop_last());
        assert(u.last() == one);
        assert(cofactor(rs, i) == reserve_product(rs.drop_last()) * 1);
        assert(reserve_product(rs) == reserve_product(rs.drop_last()) * rs[i].amount);
        lemma_mul_is_commutative(reserve_product(rs.drop_last()), rs[i].amount as int);
    } else {
        let front = rs.drop_last();
        assert(u.drop_last() =~= front.update(i, one));
        assert(u.last() == rs.last());
        assert(front[i] == rs[i]);
        lemma_product_split(front, i);
        // cofactor(rs, i) == cofactor(front, i) * rs.last().amount
        assert(reserve_product(u) == reserve_product(front.update(i, one)) * rs.last().amount);
        // reserve_product(rs) == front_product * last
        //                     == (rs[i].amount * cofactor(front, i)) * last
        //                     == rs[i].amount * (cofactor(front, i) * last)
        lemma_mul_is_associative(
            rs[i].amount as int,
            reserve_product(front.update(i, one)),
            rs.last().amount as int,
        );
    }
}

/// Prefix products never exceed the whole product of positive reserves.
pub proof fn lemma_prefix_product_le(rs: Seq<AssetAmount>, k: int)
    requires
        forall|m: int| 0 <= m < rs.len() ==> rs[m].amount > 0,
        0 <= k <= rs.len(),
    ensures
        reserve_product(rs.take(k)) <= reserve_product(rs),
    decreases rs.len() - k,
{
    if k == rs.len() {
        assert(rs.take(k) =~= rs);
    } else {
        assert(rs.take(k + 1).drop_last() =~= rs.take(k));
        assert(rs.take(k + 1).last() == rs[k]);
        assert(forall|m: int| 0 <= m < rs.take(k).len() ==> rs.take(k)[m].amount > 0);
        lemma_reserve_product_positive(rs.take(k));
        assert(reserve_product(rs.take(k + 1)) == reserve_product(rs.take(k)) * rs[k].amount);
        lemma_mul_increases(rs[k].amount as int, reserve_product(rs.take(k)));
        lemma_mul_is_commutative(reserve_product(rs.take(k)), rs[k].amount as int);
        lemma_prefix_product_le(rs, k + 1);
    }
}

/// Partial value sums grow with the number of positions counted.
pub proof fn lemma_value_prefix_monotone(
    deposit: Seq<AssetAmount>,
    rs: Seq<AssetAmount>,
    k: int,
    l: int,
)
    requires
        forall|m: int| 0 <= m < rs.len() ==> rs[m].amount > 0,
        0 <= k <= l <= rs.len(),
    ensures
        0 <= value_num_prefix(deposit, rs, k) <= value_num_prefix(deposit, rs, l),
    decreases l,
{
    if l > 0 {
        if k == l {
            lemma_value_prefix_monotone(deposit, rs, k - 1, l - 1);
            lemma_cofactor_positive(rs, l - 1);
            lemma_mul_nonnegative(dep_amt(deposit, rs, l - 1), cofactor(rs, l - 1));
        } else {
            lemma_value_prefix_monotone(deposit, rs, k, l - 1);
            lemma_cofactor_positive(rs, l - 1);
            lemma_mul_nonnegative(dep_amt(deposit, rs, l - 1), cofactor(rs, l - 1));
        }
    }
}

/// Each position's value term is bounded by the total value.
pub proof fn lemma_value_term_le_total(deposit: Seq<AssetAmount>, rs: Seq<AssetAmount>, i: int)
    requires
        forall|m: int| 0 <= m < rs.len() ==> rs[m].amount > 0,
        0 <= i < rs.len(),
    ensures
        dep_amt(deposit, rs, i) * cofactor(rs, i) <= value_num(deposit, rs),
{
    lemma_value_prefix_monotone(deposit, rs, 0, i);
    lemma_value_prefix_monotone(deposit, rs, i + 1, rs.len() as int);
    assert(value_num_prefix(deposit, rs, i + 1) == value_num_prefix(deposit, rs, i) + dep_amt(
        deposit,
        rs,
        i,
    ) * cofactor(rs, i));
    lemma_value_prefix_monotone(deposit, rs, 0, i + 1);
}

/// The denominator of the target formula is positive.
pub proof fn lemma_value_den_positive(rs: Seq<AssetAmount>)
    requires
        reserves_wf(rs),
    ensures
        value_den(rs) >= 1,
{
    lemma_reserve_product_positive(rs);
    lemma_mul_strictly_positive(rs.len() as int, reserve_product(rs));
}

/// Targets are never negative.
pub proof fn lemma_target_nonneg(deposit: Seq<AssetAmount>, rs: Seq<AssetAmount>, i: int)
    requires
        reserves_wf(rs),
        0 <= i < rs.len(),
    ensures
        target_amt(deposit, rs, i) >= 0,
{
    lemma_value_den_positive(rs);
    lemma_value_prefix_monotone(deposit, rs, 0, rs.len() as int);
    lemma_mul_nonnegative(rs[i].amount as int, value_num(deposit, rs));
    vstd::arithmetic::div_mod::lemma_div_pos_is_pos(
        rs[i].amount * value_num(deposit, rs),
        value_den(rs),
    );
}

/// A target's value never exceeds the deposit's total value.
pub proof fn lemma_target_value_le_total(deposit: Seq<AssetAmount>, rs: Seq<AssetAmount>, i: int)
    requires
        reserves_wf(rs),
        0 <= i < rs.len(),
    ensures
        target_amt(deposit, rs, i) * cofactor(rs, i) <= value_num(deposit, rs),
{
    let n = rs.len() as int;
    let ri = rs[i].amount as int;
    let num = value_num(deposit, rs);
    let den = value_den(rs);
    let q = target_amt(deposit, rs, i);
    let cof = cofactor(rs, i);
    lemma_value_den_positive(rs);
    lemma_value_prefix_monotone(deposit, rs, 0, n);
    lemma_mul_nonnegative(ri, num);
    lemma_fundamental_div_mod(ri * num, den);
    lemma_mod_bound(ri * num, den);
    lemma_target_nonneg(deposit, rs, i);
    lemma_cofactor_positive(rs, i);
    lemma_product_split(rs, i);
    // q * den <= ri * num, and den == n * (ri * cof)
    assert(q * den <= ri * num);
    assert(den == n * (ri * cof));
    // so q * n * ri * cof <= ri * num, cancel ri, then drop the factor n >= 1
    assert(q * cof <= num) by (nonlinear_arith)
        requires
            q * den <= ri * num,
            den == n * (ri * cof),
            q >= 0,
            cof >= 1,
            ri >= 1,
            n >= 1,
            num >= 0,
    ;
}

/// How close the balanced basket is to the pool's ratio: for any two pool
/// positions, the cross-multiplied targets differ from the cross-multiplied
/// reserves by less than one rounding unit — `target_i / target_j` matches
/// `reserve_i / reserve_j` as closely as integer amounts allow.
pub proof fn lemma_target_ratio(deposit: Seq<AssetAmount>, rs: Seq<AssetAmount>, i: int, j: int)
    requires
        reserves_wf(rs),
        0 <= i < rs.len(),
        0 <= j < rs.len(),
    ensures
        -(rs[j].amount as int) < target_amt(deposit, rs, i) * rs[j].amount - target_amt(
            deposit,
            rs,
            j,
        ) * rs[i].amount < rs[i].amount as int,
{
    let n = rs.len() as int;
    let ri = rs[i].amount as int;
    let rj = rs[j].amount as int;
    let num = value_num(deposit, rs);
    let den = value_den(rs);
    let qi = target_amt(deposit, rs, i);
    let qj = target_amt(deposit, rs, j);
    lemma_value_den_positive(rs);
    lemma_value_prefix_monotone(deposit, rs, 0, n);
    lemma_mul_nonnegative(ri, num);
    lemma_mul_nonnegative(rj, num);
    lemma_fundamental_div_mod(ri * num, den);
    lemma_fundamental_div_mod(rj * num, den);
    lemma_mod_bound(ri * num, den);
    lemma_mod_bound(rj * num, den);
    let remi = (ri * num) % den;
    let remj = (rj * num) % den;
    assert((qi * rj - qj * ri) * den == remj * ri - remi * rj) by (nonlinear_arith)
        requires
            ri * num == den * qi + remi,
            rj * num == den * qj + remj,
    ;
    assert(remj * ri - remi * rj < den * ri) by {
        lemma_mul_strict_inequality(remj, den, ri);
        lemma_mul_nonnegative(remi, rj);
        lemma_mul_is_commutative(remj, ri);
        lemma_mul_is_commutative(den, ri);
    }
    assert(remj * ri - remi * rj > -(den * rj)) by {
        lemma_mul_strict_inequality(remi, den, rj);
        lemma_mul_nonnegative(remj, ri);
        lemma_mul_is_commutative(remi, rj);
        lemma_mul_is_commutative(den, rj);
    }
    assert(qi * rj - qj * ri < ri) by {
        lemma_mul_is_commutative(qi * rj - qj * ri, den);
        lemma_mul_is_commutative(ri, den);
        lemma_mul_strict_inequality_converse(qi * rj - qj * ri, ri, den);
    }
    assert(qi * rj - qj * ri > -rj) by {
        vstd::arithmetic::mul::lemma_mul_unary_negation(rj, den);
        assert((-rj) * den == -(rj * den));
        lemma_mul_is_commutative(rj, den);
        assert((-rj) * den < (qi * rj - qj * ri) * den);
        lemma_mul_strict_inequality_converse(-rj, qi * rj - qj * ri, den);
    }
}

/// Appending a swap adds its amount to its offer asset's total and leaves
/// every other asset's total unchanged.
proof fn lemma_offered_total_push(swaps: Seq<SwapInstruction>, x: SwapInstruction, id: u64)
    ensures
        offered_total(swaps.push(x), id) == offered_total(swaps, id) + if x.offer == id {
            x.amount as int
        } else {
            0
        },
{
    assert(swaps.push(x).drop_last() =~= swaps);
    assert(swaps.push(x).last() == x);
}

/// Rounding a value down to whole source units never exceeds the value.
proof fn lemma_div_mul_le(x: int, c: int)
    requires
        x >= 0,
        c >= 1,
    ensures
        0 <= (x / c) * c <= x,
{
    lemma_fundamental_div_mod(x, c);
    lemma_mod_bound(x, c);
    vstd::arithmetic::div_mod::lemma_div_pos_is_pos(x, c);
    lemma_mul_is_commutative(x / c, c);
}

/// A value short of `y` whole units yields fewer than `y` units.
proof fn lemma_div_strict_bound(x: int, y: int, c: int)
    requires
        x >= 0,
        c >= 1,
        x < y * c,
    ensures
        x / c < y,
{
    lemma_div_mul_le(x, c);
    if x / c >= y {
        lemma_mul_inequality(y, x / c, c);
    }
}

// ------------------------------------------------------------------
// Executable balancing.
// ------------------------------------------------------------------

/// The working tables of one balancing run, all aligned to pool positions.
spec fn tables_ok(
    deposit: Seq<AssetAmount>,
    rs: Seq<AssetAmount>,
    aligned: Seq<u128>,
    targets: Seq<u128>,
    c: Seq<u128>,
    nm: u128,
) -> bool {
    &&& reserves_wf(rs)
    &&& aligned.len() == rs.len()
    &&& targets.len() == rs.len()
    &&& c.len() == rs.len()
    &&& forall|i: int| 0 <= i < rs.len() ==> aligned[i] == dep_amt(deposit, rs, i)
    &&& forall|i: int| 0 <= i < rs.len() ==> targets[i] == target_amt(deposit, rs, i)
    &&& forall|i: int| 0 <= i < rs.len() ==> c[i] == cofactor(rs, i)
    &&& nm == value_num(deposit, rs)
}

/// Does every deposited asset belong to the pool's required set?
fn check_supported(deposit: &Vec<AssetAmount>, rs: &Vec<AssetAmount>) -> (ok: bool)
    ensures
        ok == deposit_supported(deposit@, rs@),
{
    let nd = deposit.len();
    let nr = rs.len();
    for k in 0..nd
        invariant
            nd == deposit@.len(),
            nr == rs@.len(),
            forall|k2: int| 0 <= k2 < k ==> #[trigger] has_id(rs@, deposit@[k2].id),
    {
        let id = deposit[k].id;
        let mut found = false;
        for i in 0..nr
            invariant
                nr == rs@.len(),
                nd == deposit@.len(),
                k < nd,
                id == deposit@[k as int].id,
                forall|k2: int| 0 <= k2 < k ==> #[trigger] has_id(rs@, deposit@[k2].id),
                found ==> has_id(rs@, id),
                !found ==> forall|i2: int| 0 <= i2 < i ==> rs@[i2].id != id,
        {
            if rs[i].id == id {
                proof {
                    assert(has_id(rs@, id));
                }
                found = true;
            }
        }
        if !found {
            proof {
                assert(!has_id(rs@, id));
                assert(deposit@[k as int].id == id);
                assert(!deposit_supported(deposit@, rs@));
            }
            return false;
        }
    }
    true
}

/// The product of all reserves, or nothing when it leaves `u128` range.
fn compute_reserve_product(rs: &Vec<AssetAmount>) -> (r: Option<u128>)
    requires
        reserves_wf(rs@),
    ensures
        match r {
            Some(p) => p == reserve_product(rs@),
            None => !fits_u128(reserve_product(rs@)),
        },
{
    let n = rs.len();
    let mut p: u128 = 1;
    proof {
        assert(rs@.take(0) =~= Seq::<AssetAmount>::empty());
    }
    for k in 0..n
        invariant
            n == rs@.len(),
            reserves_wf(rs@),
            p == reserve_product(rs@.take(k as int)),
    {
        proof {
            assert(rs@.take(k + 1).drop_last() =~= rs@.take(k as int));
            assert(rs@.take(k + 1).last() == rs@[k as int]);
        }
        match p.checked_mul(rs[k].amount) {
            Some(np) => {
                p = np;
            },
            None => {
                proof {
                    lemma_prefix_product_le(rs@, k + 1);
                }
                return None;
            },
        }
    }
    proof {
        assert(rs@.take(n as int) =~= rs@);
    }
    Some(p)
}

/// The cofactor of each pool position, by exact division of the product.
fn compute_cofactors(rs: &Vec<AssetAmount>, p: u128) -> (c: Vec<u128>)
    requires
        reserves_wf(rs@),
        p == reserve_product(rs@),
    ensures
        c@.len() == rs@.len(),
        forall|i: int| 0 <= i < rs@.len() ==> c@[i] == cofactor(rs@, i),
{
    let n = rs.len();
    let mut c: Vec<u128> = Vec::new();
    for i in 0..n
        invariant
            n == rs@.len(),
            reserves_wf(rs@),
            p == reserve_product(rs@),
            c@.len() == i,
            forall|j: int| 0 <= j < i ==> c@[j] == cofactor(rs@, j),
    {
        proof {
            lemma_product_split(rs@, i as int);
            lemma_cofactor_positive(rs@, i as int);
            lemma_mul_is_commutative(rs@[i as int].amount as int, cofactor(rs@, i as int));
            vstd::arithmetic::div_mod::lemma_div_multiples_vanish(
                cofactor(rs@, i as int),
                rs@[i as int].amount as int,
            );
        }
        c.push(p / rs[i].amount);
    }
    c
}

/// The deposit's total value in common units, or nothing when it leaves
/// `u128` range.
fn compute_value_num(
    aligned: &Vec<u128>,
    c: &Vec<u128>,
    rs: &Vec<AssetAmount>,
    Ghost(deposit): Ghost<Seq<AssetAmount>>,
) -> (r: Option<u128>)
    requires
        reserves_wf(rs@),
        aligned@.len() == rs@.len(),
        c@.len() == rs@.len(),
        forall|i: int| 0 <= i < rs@.len() ==> aligned@[i] == dep_amt(deposit, rs@, i),
        forall|i: int| 0 <= i < rs@.len() ==> c@[i] == cofactor(rs@, i),
    ensures
        match r {
            Some(nm) => nm == value_num(deposit, rs@),
            None => !fits_u128(value_num(deposit, rs@)),
        },
{
    let n = rs.len();
    let mut nm: u128 = 0;
    for i in 0..n
        invariant
            n == rs@.len(),
            reserves_wf(rs@),
            aligned@.len() == rs@.len(),
            c@.len() == rs@.len(),
            forall|j: int| 0 <= j < rs@.len() ==> aligned@[j] == dep_amt(deposit, rs@, j),
            forall|j: int| 0 <= j < rs@.len() ==> c@[j] == cofactor(rs@, j),
            nm == value_num_prefix(deposit, rs@, i as int),
    {
        proof {
            lemma_value_prefix_monotone(deposit, rs@, 0, i as int);
            lemma_value_prefix_monotone(deposit, rs@, i + 1, rs@.len() as int);
        }
        let term = match aligned[i].checked_mul(c[i]) {
            Some(t) => t,
            None => {
                return None;
            },
        };
        nm = match nm.checked_add(term) {
            Some(s) => s,
            None => {
                return None;
            },
        };
    }
    Some(nm)
}

/// Plans the swaps that route surplus value into deficit assets: surpluses
/// in ascending identifier order, each split across deficit assets in
/// ascending identifier order, greedily by exact value, rounded down to
/// whole source units.
fn build_swaps(
    rs: &Vec<AssetAmount>,
    aligned: &Vec<u128>,
    targets: &Vec<u128>,
    c: &Vec<u128>,
    nm: u128,
    Ghost(deposit): Ghost<Seq<AssetAmount>>,
) -> (swaps: Vec<SwapInstruction>)
    requires
        tables_ok(deposit, rs@, aligned@, targets@, c@, nm),
    ensures
        swap_plan_ok(swaps@, deposit, rs@),
        (forall|i: int|
            0 <= i < rs@.len() ==> dep_amt(deposit, rs@, i) <= target_amt(deposit, rs@, i))
            ==> swaps@.len() == 0,
{
    let n = rs.len();
    let mut need: Vec<u128> = Vec::new();
    for t in 0..n
        invariant
            n == rs@.len(),
            tables_ok(deposit, rs@, aligned@, targets@, c@, nm),
            need@.len() == t,
            forall|u: int|
                0 <= u < t ==> #[trigger] need@[u] > 0 ==> aligned@[u] < targets@[u],
    {
        if aligned[t] < targets[t] {
            let gap = targets[t] - aligned[t];
            proof {
                lemma_target_value_le_total(deposit, rs@, t as int);
                lemma_cofactor_positive(rs@, t as int);
                lemma_mul_inequality(
                    gap as int,
                    targets@[t as int] as int,
                    c@[t as int] as int,
                );
            }
            need.push(gap * c[t]);
        } else {
            need.push(0);
        }
    }
    let mut swaps: Vec<SwapInstruction> = Vec::new();
    for s in 0..n
        invariant
            n == rs@.len(),
            tables_ok(deposit, rs@, aligned@, targets@, c@, nm),
            need@.len() == n,
            forall|u: int|
                0 <= u < n ==> #[trigger] need@[u] > 0 ==> aligned@[u] < targets@[u],
            forall|k: int|
                0 <= k < swaps@.len() ==> swap_wf(#[trigger] swaps@[k], deposit, rs@),
            swaps_ordered(swaps@),
            forall|k: int|
                0 <= k < swaps@.len() ==> exists|i: int|
                    0 <= i < s && rs@[i].id == #[trigger] swaps@[k].offer,
            forall|i: int|
                0 <= i < rs@.len() ==> offered_total(swaps@, rs@[i].id) <= dep_amt(
                    deposit,
                    rs@,
                    i,
                ),
            forall|i: int| s <= i < rs@.len() ==> offered_total(swaps@, rs@[i].id) == 0,
    {
        if aligned[s] > targets[s] {
            let surplus = aligned[s] - targets[s];
            let mut rem: u128 = surplus;
            for t in 0..n
                invariant
                    n == rs@.len(),
                    s < n,
                    tables_ok(deposit, rs@, aligned@, targets@, c@, nm),
                    need@.len() == n,
                    forall|u: int|
                        0 <= u < n ==> #[trigger] need@[u] > 0 ==> aligned@[u] < targets@[u],
                    aligned@[s as int] > targets@[s as int],
                    surplus == aligned@[s as int] - targets@[s as int],
                    rem <= surplus,
                    forall|k: int|
                        0 <= k < swaps@.len() ==> swap_wf(#[trigger] swaps@[k], deposit, rs@),
                    swaps_ordered(swaps@),
                    forall|k: int|
                        0 <= k < swaps@.len() ==> (exists|i: int|
                            0 <= i < s && rs@[i].id == #[trigger] swaps@[k].offer) || (
                        swaps@[k].offer == rs@[s as int].id && exists|j: int|
                            0 <= j < t && rs@[j].id == swaps@[k].ask),
                    offered_total(swaps@, rs@[s as int].id) == surplus - rem,
                    forall|i: int|
                        0 <= i < rs@.len() && i != s ==> offered_total(swaps@, rs@[i].id)
                            <= dep_amt(deposit, rs@, i),
                    forall|i: int| s < i < rs@.len() ==> offered_total(swaps@, rs@[i].id) == 0,
            {
                if rem > 0 && need[t] > 0 {
                    proof {
                        assert(aligned@[t as int] < targets@[t as int]);
                        assert(s != t);
                        lemma_value_term_le_total(deposit, rs@, s as int);
                        lemma_cofactor_positive(rs@, s as int);
                        lemma_cofactor_positive(rs@, t as int);
                        lemma_target_value_le_total(deposit, rs@, t as int);
                        lemma_mul_inequality(
                            rem as int,
                            aligned@[s as int] as int,
                            c@[s as int] as int,
                        );
                    }
                    let have_val = rem * c[s];
                    let a: u128;
                    let used: u128;
                    if have_val <= need[t] {
                        a = rem;
                        used = have_val;
                    } else {
                        a = need[t] / c[s];
                        proof {
                            lemma_div_mul_le(need@[t as int] as int, c@[s as int] as int);
                            lemma_div_strict_bound(
                                need@[t as int] as int,
                                rem as int,
                                c@[s as int] as int,
                            );
                        }
                        used = a * c[s];
                    }
                    if a > 0 {
                        let instr = SwapInstruction { offer: rs[s].id, ask: rs[t].id, amount: a };
                        proof {
                            let sw = swaps@;
                            assert forall|id: u64|
                                offered_total(sw.push(instr), id) == offered_total(sw, id) + if instr.offer
                                    == id {
                                    instr.amount as int
                                } else {
                                    0
                                } by {
                                lemma_offered_total_push(sw, instr, id);
                            }
                            assert(swap_wf(instr, deposit, rs@)) by {
                                assert(rs@[s as int].id == instr.offer && dep_amt(deposit, rs@, s as int)
                                    > target_amt(deposit, rs@, s as int));
                                assert(rs@[t as int].id == instr.ask && dep_amt(deposit, rs@, t as int)
                                    < target_amt(deposit, rs@, t as int));
                            }
                        }
                        swaps.push(instr);
                        rem = rem - a;
                        let reduced = need[t] - used;
                        need.set(t, reduced);
                    }
                }
            }
        }
    }
    proof {
        if (forall|i: int|
            0 <= i < rs@.len() ==> dep_amt(deposit, rs@, i) <= target_amt(deposit, rs@, i))
            && swaps@.len() > 0 {
            assert(swap_wf(swaps@[0], deposit, rs@));
            let wi = choose|i: int|
                0 <= i < rs@.len() && rs@[i].id == swaps@[0].offer && dep_amt(deposit, rs@, i)
                    > target_amt(deposit, rs@, i);
            assert(false);
        }
    }
    swaps
}

/// Computes a balancing plan: the ordered swaps that route surplus into
/// deficit, and the balanced basket the liquidity provision will use.
///
/// The plan is accepted exactly when every deposited asset belongs to the
/// pool's required set and the exact-integer computation stays within
/// machine range; the balanced basket then holds each asset's target
/// amount, the pool ratio held as closely as integer rounding allows
/// ([`lemma_target_ratio`]), and the swaps never spend more of an asset
/// than the deposit held. A deposit already at the target ratio yields
/// zero swaps.
pub fn balance_basket(deposit: &Basket, pool: &PoolInfo) -> (r: Result<BalancePlan, HelperError>)
    requires
        deposit.wf(),
        pool.wf(),
    ensures
        match r {
            Ok(plan) => {
                &&& deposit_supported(deposit.entries@, pool.reserves@)
                &&& overflow_free(deposit.entries@, pool.reserves@)
                &&& plan.basket.entries@.len() == pool.reserves@.len()
                &&& forall|i: int|
                    0 <= i < pool.reserves@.len() ==> (#[trigger] plan.basket.entries@[i]).id
                        == pool.reserves@[i].id
                &&& forall|i: int|
                    0 <= i < pool.reserves@.len() ==> (#[trigger] plan.basket.entries@[i]).amount
                        as int == target_amt(deposit.entries@, pool.reserves@, i)
                &&& plan.basket.wf()
                &&& swap_plan_ok(plan.swaps@, deposit.entries@, pool.reserves@)
                &&& (forall|i: int|
                    0 <= i < pool.reserves@.len() ==> dep_amt(deposit.entries@, pool.reserves@, i)
                        <= target_amt(deposit.entries@, pool.reserves@, i)) ==> plan.swaps@.len()
                    == 0
            },
            Err(e) => {
                &&& !(deposit_supported(deposit.entries@, pool.reserves@) && overflow_free(
                    deposit.entries@,
                    pool.reserves@,
                ))
                &&& (e == HelperError::UnsupportedAsset <==> !deposit_supported(
                    deposit.entries@,
                    pool.reserves@,
                ))
                &&& (e == HelperError::ValueOverflow <==> deposit_supported(
                    deposit.entries@,
                    pool.reserves@,
                ) && !overflow_free(deposit.entries@, pool.reserves@))
            },
        },
{
    let rs = &pool.reserves;
    let n = rs.len();
    if !check_supported(&deposit.entries, rs) {
        return Err(HelperError::UnsupportedAsset);
    }
    let mut aligned: Vec<u128> = Vec::new();
    for i in 0..n
        invariant
            n == rs@.len(),
            deposit.wf(),
            reserves_wf(rs@),
            aligned@.len() == i,
            forall|j: int| 0 <= j < i ==> aligned@[j] == dep_amt(deposit.entries@, rs@, j),
    {
        aligned.push(lookup_amount(&deposit.entries, rs[i].id));
    }
    let p = match compute_reserve_product(rs) {
        Some(p) => p,
        None => {
            return Err(HelperError::ValueOverflow);
        },
    };
    let c = compute_cofactors(rs, p);
    let nm = match compute_value_num(&aligned, &c, rs, Ghost(deposit.entries@)) {
        Some(nm) => nm,
        None => {
            proof {
                lemma_value_prefix_monotone(deposit.entries@, rs@, 0, rs@.len() as int);
                assert(value_num(deposit.entries@, rs@) > u128::MAX as int);
                lemma_mul_increases(
                    rs@[0].amount as int,
                    value_num(deposit.entries@, rs@),
                );
                assert(!fits_u128(rs@[0].amount * value_num(deposit.entries@, rs@)));
                assert(!overflow_free(deposit.entries@, rs@));
            }
            return Err(HelperError::ValueOverflow);
        },
    };
    let den = match (n as u128).checked_mul(p) {
        Some(d) => d,
        None => {
            return Err(HelperError::ValueOverflow);
        },
    };
    proof {
        lemma_value_den_positive(rs@);
    }
    let mut targets: Vec<u128> = Vec::new();
    for i in 0..n
        invariant
            n == rs@.len(),
            deposit.wf(),
            reserves_wf(rs@),
            deposit_supported(deposit.entries@, rs@),
            nm == value_num(deposit.entries@, rs@),
            den == value_den(rs@),
            den >= 1,
            rs@ == pool.reserves@,
            targets@.len() == i,
            forall|j: int|
                0 <= j < i ==> targets@[j] == target_amt(deposit.entries@, rs@, j),
            forall|j: int|
                0 <= j < i ==> fits_u128(rs@[j].amount * value_num(deposit.entries@, rs@)),
    {
        let t = match rs[i].amount.checked_mul(nm) {
            Some(t) => t,
            None => {
                proof {
                    assert(!fits_u128(rs@[i as int].amount * value_num(deposit.entries@, rs@)));
                    assert(!overflow_free(deposit.entries@, rs@));
                }
                return Err(HelperError::ValueOverflow);
            },
        };
        targets.push(t / den);
    }
    let mut entries: Vec<AssetAmount> = Vec::new();
    for i in 0..n
        invariant
            n == rs@.len(),
            reserves_wf(rs@),
            targets@.len() == n,
            forall|j: int|
                0 <= j < n ==> targets@[j] == target_amt(deposit.entries@, rs@, j),
            entries@.len() == i,
            forall|j: int| 0 <= j < i ==> (#[trigger] entries@[j]).id == rs@[j].id,
            forall|j: int| 0 <= j < i ==> (#[trigger] entries@[j]).amount == targets@[j],
    {
        entries.push(AssetAmount { id: rs[i].id, amount: targets[i] });
    }
    let swaps = build_swaps(rs, &aligned, &targets, &c, nm, Ghost(deposit.entries@));
    proof {
        assert(ids_unique(entries@));
    }
    Ok(BalancePlan { swaps, basket: Basket { entries } })
}

} // verus!
