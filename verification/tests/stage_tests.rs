use astroport_liquidity_helper::accountant::{checkpoint, resolve};
use astroport_liquidity_helper::asset::{AssetAmount, Basket};
use astroport_liquidity_helper::error::HelperError;
use astroport_liquidity_helper::msg::{CallbackMsg, InstantiateMsg};
use astroport_liquidity_helper::pool::{PoolInfo, PoolRef};
use astroport_liquidity_helper::stages::{
    handle_callback, instantiate, provide_liquidity_stage, query_astroport_factory,
    return_shares_stage, start_request, Action,
};

fn asset(id: u64, amount: u128) -> AssetAmount {
    AssetAmount { id, amount }
}

fn pool_1to1() -> PoolInfo {
    PoolInfo::try_new(7, 9, vec![asset(1, 1000), asset(2, 1000)]).unwrap()
}

fn self_addr() -> String {
    String::from("helper-account")
}

#[test]
fn config_round_trip() {
    let config = instantiate(InstantiateMsg { astroport_factory: String::from("factory-7") });
    assert_eq!(query_astroport_factory(&config), String::from("factory-7"));
}

#[test]
fn entry_dispatches_swaps_then_continuation() {
    let pool = pool_1to1();
    let acts = start_request(
        vec![asset(1, 100)],
        90,
        &pool,
        String::from("alice"),
        None,
    )
    .unwrap();
    assert_eq!(acts.len(), 2);
    match &acts[0] {
        Action::Swap { pool: p, instruction } => {
            assert_eq!(*p, PoolRef { pool_id: 7, share_token: 9 });
            assert_eq!(instruction.offer, 1);
            assert_eq!(instruction.ask, 2);
            assert_eq!(instruction.amount, 50);
        }
        other => panic!("expected a swap, got {:?}", other),
    }
    match &acts[1] {
        Action::Callback { msg: CallbackMsg::ProvideLiquidity { assets, min_out, pool: p, recipient } } => {
            assert_eq!(assets.entries, vec![asset(1, 50), asset(2, 50)]);
            assert_eq!(*min_out, 90);
            assert_eq!(*p, PoolRef { pool_id: 7, share_token: 9 });
            // No explicit recipient: the requester receives the shares.
            assert_eq!(recipient.as_str(), "alice");
        }
        other => panic!("expected the provide-liquidity continuation, got {:?}", other),
    }
}

#[test]
fn balanced_entry_skips_straight_to_provision() {
    let pool = pool_1to1();
    let acts = start_request(
        vec![asset(1, 40), asset(2, 40)],
        1,
        &pool,
        String::from("alice"),
        Some(String::from("bob")),
    )
    .unwrap();
    assert_eq!(acts.len(), 1);
    match &acts[0] {
        Action::Callback { msg: CallbackMsg::ProvideLiquidity { assets, recipient, .. } } => {
            assert_eq!(assets.entries, vec![asset(1, 40), asset(2, 40)]);
            assert_eq!(recipient.as_str(), "bob");
        }
        other => panic!("expected the provide-liquidity continuation, got {:?}", other),
    }
}

#[test]
fn empty_basket_is_invalid() {
    let pool = pool_1to1();
    let r = start_request(vec![], 1, &pool, String::from("alice"), None);
    assert_eq!(r.unwrap_err(), HelperError::InvalidInput);
}

#[test]
fn zero_amount_is_invalid() {
    let pool = pool_1to1();
    let r = start_request(vec![asset(1, 0)], 1, &pool, String::from("alice"), None);
    assert_eq!(r.unwrap_err(), HelperError::InvalidInput);
}

#[test]
fn repeated_identifier_is_invalid() {
    let pool = pool_1to1();
    let r = start_request(
        vec![asset(1, 5), asset(1, 6)],
        1,
        &pool,
        String::from("alice"),
        None,
    );
    assert_eq!(r.unwrap_err(), HelperError::InvalidInput);
}

#[test]
fn foreign_asset_fails_the_entry() {
    let pool = pool_1to1();
    let r = start_request(vec![asset(3, 5)], 1, &pool, String::from("alice"), None);
    assert_eq!(r.unwrap_err(), HelperError::UnsupportedAsset);
}

#[test]
fn provide_stage_checkpoints_and_continues() {
    let basket = Basket { entries: vec![asset(1, 50), asset(2, 50)] };
    let pool = PoolRef { pool_id: 7, share_token: 9 };
    let acts = provide_liquidity_stage(
        basket,
        90,
        pool,
        String::from("bob"),
        &self_addr(),
        11,
    );
    assert_eq!(acts.len(), 2);
    match &acts[0] {
        Action::ProvideLiquidity { pool: p, assets } => {
            assert_eq!(*p, pool);
            assert_eq!(assets.entries, vec![asset(1, 50), asset(2, 50)]);
        }
        other => panic!("expected the provide-liquidity action, got {:?}", other),
    }
    match &acts[1] {
        Action::Callback {
            msg: CallbackMsg::ReturnLpTokens { pool: p, balance_before, min_out, recipient },
        } => {
            assert_eq!(*p, pool);
            assert_eq!(*balance_before, 11);
            assert_eq!(*min_out, 90);
            assert_eq!(recipient.as_str(), "bob");
        }
        other => panic!("expected the return-shares continuation, got {:?}", other),
    }
}

#[test]
fn return_stage_transfers_exactly_the_minted_delta() {
    let pool = PoolRef { pool_id: 7, share_token: 9 };
    let act = return_shares_stage(pool, 11, 90, String::from("bob"), &self_addr(), 11 + 95)
        .unwrap();
    match act {
        Action::TransferShares { token, amount, recipient } => {
            assert_eq!(token, 9);
            assert_eq!(amount, 95);
            assert_eq!(recipient.as_str(), "bob");
        }
        other => panic!("expected the transfer, got {:?}", other),
    }
}

#[test]
fn shortfall_is_slippage() {
    let pool = PoolRef { pool_id: 7, share_token: 9 };
    let r = return_shares_stage(pool, 10, 100, String::from("bob"), &self_addr(), 50);
    assert_eq!(r.unwrap_err(), HelperError::SlippageExceeded);
}

#[test]
fn negative_delta_is_a_defect() {
    let pool = PoolRef { pool_id: 7, share_token: 9 };
    let r = return_shares_stage(pool, 10, 0, String::from("bob"), &self_addr(), 5);
    let e = r.unwrap_err();
    assert_eq!(e, HelperError::AccountingInvariantViolation);
    assert!(e.is_defect());
    assert!(!HelperError::SlippageExceeded.is_defect());
}

#[test]
fn foreign_sender_cannot_drive_the_provide_stage() {
    let msg = CallbackMsg::ProvideLiquidity {
        assets: Basket { entries: vec![asset(1, 50)] },
        min_out: 1,
        pool: PoolRef { pool_id: 7, share_token: 9 },
        recipient: String::from("bob"),
    };
    let r = handle_callback(&self_addr(), &String::from("mallory"), msg, 0);
    assert_eq!(r.unwrap_err(), HelperError::Unauthorized);
}

#[test]
fn foreign_sender_cannot_drive_the_return_stage() {
    let msg = CallbackMsg::ReturnLpTokens {
        pool: PoolRef { pool_id: 7, share_token: 9 },
        balance_before: 0,
        min_out: 0,
        recipient: String::from("mallory"),
    };
    let r = handle_callback(&self_addr(), &String::from("mallory"), msg, 1_000_000);
    assert_eq!(r.unwrap_err(), HelperError::Unauthorized);
}

#[test]
fn own_sender_drives_both_stages() {
    let me = self_addr();
    let provide = CallbackMsg::ProvideLiquidity {
        assets: Basket { entries: vec![asset(1, 50), asset(2, 50)] },
        min_out: 90,
        pool: PoolRef { pool_id: 7, share_token: 9 },
        recipient: String::from("bob"),
    };
    let acts = handle_callback(&me, &me, provide, 11).unwrap();
    assert_eq!(acts.len(), 2);
    let ret = CallbackMsg::ReturnLpTokens {
        pool: PoolRef { pool_id: 7, share_token: 9 },
        balance_before: 11,
        min_out: 90,
        recipient: String::from("bob"),
    };
    let acts = handle_callback(&me, &me, ret, 11 + 95).unwrap();
    assert_eq!(acts.len(), 1);
}

#[test]
fn delta_ignores_preexisting_balance() {
    // An arbitrary non-zero prior balance never leaks into the delta.
    for prior in [0u128, 1, 500, 123_456_789] {
        let cp = checkpoint(9, self_addr(), prior);
        assert_eq!(resolve(&cp, prior + 77), Ok(77));
    }
    let cp = checkpoint(9, self_addr(), 500);
    assert_eq!(cp.token, 9);
    assert_eq!(cp.snapshot, 500);
    assert_eq!(
        resolve(&cp, 499),
        Err(HelperError::AccountingInvariantViolation)
    );
}
