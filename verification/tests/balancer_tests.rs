use astroport_liquidity_helper::asset::{AssetAmount, Basket};
use astroport_liquidity_helper::balancer::{balance_basket, SwapInstruction};
use astroport_liquidity_helper::error::HelperError;
use astroport_liquidity_helper::pool::PoolInfo;

fn asset(id: u64, amount: u128) -> AssetAmount {
    AssetAmount { id, amount }
}

fn pool_1to1() -> PoolInfo {
    PoolInfo::try_new(7, 9, vec![asset(1, 1000), asset(2, 1000)]).unwrap()
}

#[test]
fn one_sided_deposit_splits_in_half() {
    // Basket {100 of asset 1, nothing of asset 2}, pool ratio 1:1:
    // one swap of 50 from asset 1 into asset 2, balanced basket {50, 50}.
    let pool = pool_1to1();
    let deposit = Basket::try_from_entries(vec![asset(1, 100)]).unwrap();
    let plan = balance_basket(&deposit, &pool).unwrap();
    assert_eq!(
        plan.swaps,
        vec![SwapInstruction { offer: 1, ask: 2, amount: 50 }]
    );
    assert_eq!(plan.basket.entries, vec![asset(1, 50), asset(2, 50)]);
}

#[test]
fn balanced_deposit_needs_no_swap() {
    // Basket already at the 1:1 target ratio: zero swaps, basket unchanged.
    let pool = pool_1to1();
    let deposit = Basket::try_from_entries(vec![asset(1, 40), asset(2, 40)]).unwrap();
    let plan = balance_basket(&deposit, &pool).unwrap();
    assert!(plan.swaps.is_empty());
    assert_eq!(plan.basket.entries, vec![asset(1, 40), asset(2, 40)]);
}

#[test]
fn deposit_order_does_not_matter() {
    let pool = pool_1to1();
    let forward = Basket::try_from_entries(vec![asset(1, 30), asset(2, 90)]).unwrap();
    let backward = Basket::try_from_entries(vec![asset(2, 90), asset(1, 30)]).unwrap();
    let a = balance_basket(&forward, &pool).unwrap();
    let b = balance_basket(&backward, &pool).unwrap();
    assert_eq!(a.swaps, b.swaps);
    assert_eq!(a.basket.entries, b.basket.entries);
    // 30 + 90 deposited against a 1:1 pool: target 60 each, swap 30 of 2 -> 1.
    assert_eq!(a.swaps, vec![SwapInstruction { offer: 2, ask: 1, amount: 30 }]);
    assert_eq!(a.basket.entries, vec![asset(1, 60), asset(2, 60)]);
}

#[test]
fn unequal_reserves_weight_the_targets() {
    // Reserves 2000:1000, one-sided deposit of 100 of the larger-reserve
    // asset: targets 50 and 25 (spot value preserved), one swap of 50.
    let pool = PoolInfo::try_new(7, 9, vec![asset(1, 2000), asset(2, 1000)]).unwrap();
    let deposit = Basket::try_from_entries(vec![asset(1, 100)]).unwrap();
    let plan = balance_basket(&deposit, &pool).unwrap();
    assert_eq!(plan.basket.entries, vec![asset(1, 50), asset(2, 25)]);
    assert_eq!(plan.swaps, vec![SwapInstruction { offer: 1, ask: 2, amount: 50 }]);
}

#[test]
fn three_asset_pool_routes_to_each_deficit() {
    // A single-asset deposit into a three-asset pool is resolved by
    // sequential swaps from that one asset into each other required asset.
    let pool = PoolInfo::try_new(
        7,
        9,
        vec![asset(1, 100), asset(2, 100), asset(3, 100)],
    )
    .unwrap();
    let deposit = Basket::try_from_entries(vec![asset(1, 90)]).unwrap();
    let plan = balance_basket(&deposit, &pool).unwrap();
    // Target 30 of each asset; surplus 60 of asset 1 routed 30 and 30.
    assert_eq!(
        plan.basket.entries,
        vec![asset(1, 30), asset(2, 30), asset(3, 30)]
    );
    assert_eq!(
        plan.swaps,
        vec![
            SwapInstruction { offer: 1, ask: 2, amount: 30 },
            SwapInstruction { offer: 1, ask: 3, amount: 30 },
        ]
    );
}

#[test]
fn swap_inputs_never_exceed_deposit() {
    let pool = PoolInfo::try_new(7, 9, vec![asset(1, 3131), asset(2, 997)]).unwrap();
    let deposit = Basket::try_from_entries(vec![asset(1, 523), asset(2, 41)]).unwrap();
    let plan = balance_basket(&deposit, &pool).unwrap();
    let spent_1: u128 = plan.swaps.iter().filter(|s| s.offer == 1).map(|s| s.amount).sum();
    let spent_2: u128 = plan.swaps.iter().filter(|s| s.offer == 2).map(|s| s.amount).sum();
    assert!(spent_1 <= 523);
    assert!(spent_2 <= 41);
}

#[test]
fn cross_ratio_within_rounding_tolerance() {
    // |b_i * r_j - b_j * r_i| stays below max(r_i, r_j) for every pair.
    let reserves = [(1u64, 3131u128), (2, 997), (3, 12345)];
    let pool =
        PoolInfo::try_new(7, 9, reserves.iter().map(|&(id, amount)| asset(id, amount)).collect())
            .unwrap();
    let deposit = Basket::try_from_entries(vec![asset(1, 523), asset(3, 10_000)]).unwrap();
    let plan = balance_basket(&deposit, &pool).unwrap();
    let b: Vec<u128> = plan.basket.entries.iter().map(|e| e.amount).collect();
    for i in 0..3 {
        for j in 0..3 {
            let lhs = (b[i] * reserves[j].1) as i128 - (b[j] * reserves[i].1) as i128;
            let bound = reserves[i].1.max(reserves[j].1) as i128;
            assert!(-bound < lhs && lhs < bound);
        }
    }
}

#[test]
fn foreign_asset_is_rejected() {
    let pool = pool_1to1();
    let deposit = Basket::try_from_entries(vec![asset(1, 10), asset(5, 10)]).unwrap();
    assert_eq!(
        balance_basket(&deposit, &pool).unwrap_err(),
        HelperError::UnsupportedAsset
    );
}

#[test]
fn oversized_reserves_overflow_exactly() {
    let pool = PoolInfo::try_new(7, 9, vec![asset(1, u128::MAX), asset(2, u128::MAX)]).unwrap();
    let deposit = Basket::try_from_entries(vec![asset(1, 10)]).unwrap();
    assert_eq!(
        balance_basket(&deposit, &pool).unwrap_err(),
        HelperError::ValueOverflow
    );
}
