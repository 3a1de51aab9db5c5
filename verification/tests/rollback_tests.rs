use std::collections::HashMap;

use astroport_liquidity_helper::asset::AssetAmount;
use astroport_liquidity_helper::error::HelperError;
use astroport_liquidity_helper::msg::CallbackMsg;
use astroport_liquidity_helper::pool::PoolInfo;
use astroport_liquidity_helper::stages::{handle_callback, start_request, Action};

// A toy host: account balances keyed by (account, token), a zero-fee 1:1
// pool, and all-or-nothing execution of one top-level request — effects
// are applied to a working copy and committed only when every stage
// succeeds, exactly the ordering and atomicity the host ledger guarantees.

type Ledger = HashMap<(String, u64), u128>;

fn credit(ledger: &mut Ledger, account: &str, token: u64, amount: u128) {
    *ledger.entry((account.to_string(), token)).or_insert(0) += amount;
}

fn debit(ledger: &mut Ledger, account: &str, token: u64, amount: u128) {
    let slot = ledger.entry((account.to_string(), token)).or_insert(0);
    assert!(*slot >= amount, "toy ledger underflow");
    *slot -= amount;
}

fn balance(ledger: &Ledger, account: &str, token: u64) -> u128 {
    *ledger.get(&(account.to_string(), token)).unwrap_or(&0)
}

const HELPER: &str = "helper-account";
const SHARE_TOKEN: u64 = 9;

/// Runs one whole balancing request against a working copy of the ledger;
/// commits only on success.
fn run_request(
    ledger: &mut Ledger,
    pool: &PoolInfo,
    deposit: Vec<AssetAmount>,
    min_out: u128,
    sender: &str,
) -> Result<(), HelperError> {
    let mut work = ledger.clone();
    // Escrow: the deposit moves into the helper's custody with the request.
    for a in &deposit {
        debit(&mut work, sender, a.id, a.amount);
        credit(&mut work, HELPER, a.id, a.amount);
    }
    let mut queue =
        start_request(deposit, min_out, pool, sender.to_string(), None)?;
    let me = HELPER.to_string();
    loop {
        let mut next: Option<CallbackMsg> = None;
        for act in queue {
            match act {
                Action::Swap { instruction, .. } => {
                    // Zero-fee 1:1 pool: equal reserves, output == input.
                    debit(&mut work, HELPER, instruction.offer, instruction.amount);
                    credit(&mut work, HELPER, instruction.ask, instruction.amount);
                }
                Action::ProvideLiquidity { assets, .. } => {
                    let mut minted: u128 = 0;
                    for a in &assets.entries {
                        debit(&mut work, HELPER, a.id, a.amount);
                        minted += a.amount;
                    }
                    // The pool mints half the provided total as shares.
                    credit(&mut work, HELPER, SHARE_TOKEN, minted / 2);
                }
                Action::TransferShares { token, amount, recipient } => {
                    debit(&mut work, HELPER, token, amount);
                    credit(&mut work, &recipient, token, amount);
                }
                Action::Callback { msg } => {
                    next = Some(msg);
                }
            }
        }
        match next {
            Some(msg) => {
                let current = balance(&work, HELPER, SHARE_TOKEN);
                queue = handle_callback(&me, &me, msg, current)?;
            }
            None => break,
        }
    }
    *ledger = work;
    Ok(())
}

fn starting_ledger() -> Ledger {
    let mut ledger = Ledger::new();
    credit(&mut ledger, "alice", 1, 500);
    credit(&mut ledger, "alice", 2, 500);
    // Residue of unrelated prior activity on the helper's own account.
    credit(&mut ledger, HELPER, SHARE_TOKEN, 1234);
    ledger
}

fn pool_1to1() -> PoolInfo {
    PoolInfo::try_new(
        7,
        SHARE_TOKEN,
        vec![AssetAmount { id: 1, amount: 1000 }, AssetAmount { id: 2, amount: 1000 }],
    )
    .unwrap()
}

#[test]
fn whole_request_reaches_the_recipient() {
    let mut ledger = starting_ledger();
    let pool = pool_1to1();
    run_request(
        &mut ledger,
        &pool,
        vec![AssetAmount { id: 1, amount: 100 }],
        50,
        "alice",
    )
    .unwrap();
    // 100 of asset 1 became {50, 50}, provided, and minted 50 shares.
    assert_eq!(balance(&ledger, "alice", 1), 400);
    assert_eq!(balance(&ledger, "alice", SHARE_TOKEN), 50);
    // The helper's unrelated residue is untouched.
    assert_eq!(balance(&ledger, HELPER, SHARE_TOKEN), 1234);
    assert_eq!(balance(&ledger, HELPER, 1), 0);
    assert_eq!(balance(&ledger, HELPER, 2), 0);
}

#[test]
fn forced_slippage_rolls_everything_back() {
    let mut ledger = starting_ledger();
    let before = ledger.clone();
    let pool = pool_1to1();
    // min_out above the achievable mint of 50 forces SlippageExceeded ...
    let r = run_request(
        &mut ledger,
        &pool,
        vec![AssetAmount { id: 1, amount: 100 }],
        51,
        "alice",
    );
    assert_eq!(r.unwrap_err(), HelperError::SlippageExceeded);
    // ... and every balance involved is identical to its pre-request value.
    assert_eq!(ledger, before);
}
