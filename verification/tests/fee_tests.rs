use astroport_liquidity_helper::decimal::{Rate, ATOMICS_PER_BASIS_POINT, RATE_FRACTIONAL};
use astroport_liquidity_helper::error::HelperError;
use astroport_liquidity_helper::fees::{resolve_fee_info, FeeInfoResponse};

#[test]
fn basis_points_convert_exactly() {
    // 30 bps and 10 bps resolve to the rates 0.003 and 0.001 exactly.
    let info = resolve_fee_info(FeeInfoResponse {
        fee_address: Some(String::from("maker-account")),
        total_fee_bps: 30,
        maker_fee_bps: 10,
    })
    .unwrap();
    assert_eq!(info.total_fee_rate.atomics, 3_000_000_000_000_000);
    assert_eq!(info.maker_fee_rate.atomics, 1_000_000_000_000_000);
    assert!(info.maker_fee_rate.le(&info.total_fee_rate));
    assert_eq!(info.fee_address, Some(String::from("maker-account")));
}

#[test]
fn full_range_is_one_whole() {
    assert_eq!(Rate::from_basis_points(10000).atomics, RATE_FRACTIONAL);
    assert_eq!(Rate::from_basis_points(0).atomics, 0);
    assert_eq!(Rate::from_basis_points(1).atomics, ATOMICS_PER_BASIS_POINT);
}

#[test]
fn out_of_range_total_is_an_upstream_failure() {
    let r = resolve_fee_info(FeeInfoResponse {
        fee_address: None,
        total_fee_bps: 10001,
        maker_fee_bps: 0,
    });
    assert_eq!(r.unwrap_err(), HelperError::UpstreamQueryFailure);
}

#[test]
fn maker_share_above_total_is_an_upstream_failure() {
    let r = resolve_fee_info(FeeInfoResponse {
        fee_address: None,
        total_fee_bps: 30,
        maker_fee_bps: 31,
    });
    assert_eq!(r.unwrap_err(), HelperError::UpstreamQueryFailure);
}
