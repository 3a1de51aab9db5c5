use vstd::prelude::*;
use crate::accountant::{checkpoint, resolve, spec_resolve};
use crate::asset::{AssetAmount, Basket};
use crate::balancer::{
    balance_basket,
    dep_amt,
    deposit_supported,
    overflow_free,
    swap_plan_ok,
    target_amt,
    SwapInstruction,
};
use crate::error::HelperError;
use crate::msg::{CallbackMsg, InstantiateMsg};
use crate::pool::{PoolInfo, PoolRef};

verus! {

/// Process-wide configuration, loaded once at creation and passed into
/// every handler invocation — never ambient global state.
#[derive(Clone, Debug)]
pub struct Config {
    pub astroport_factory: String,
}

/// Creates the configuration from the instantiation request.
pub fn instantiate(msg: InstantiateMsg) -> (c: Config)
    ensures
        c.astroport_factory@ == msg.astroport_factory@,
{
    Config { astroport_factory: msg.astroport_factory }
}

/// Answers the factory read query.
pub fn query_astroport_factory(config: &Config) -> (a: String)
    ensures
        a@ == config.astroport_factory@,
{
    config.astroport_factory.clone()
}

/// One ledger instruction this system dispatches. The stage functions only
/// decide; the host-facing layer performs each action in order, and the
/// host ledger applies the whole chain all-or-nothing.
#[derive(Debug)]
pub enum Action {
    /// Execute one swap on the pool.
    Swap { pool: PoolRef, instruction: SwapInstruction },
    /// Provide the basket to the pool as liquidity.
    ProvideLiquidity { pool: PoolRef, assets: Basket },
    /// Transfer `amount` of `token` to `recipient`.
    TransferShares { token: u64, amount: u128, recipient: String },
    /// Send a continuation message to this system's own address.
    Callback { msg: CallbackMsg },
}

/// The swap instructions embedded in a prefix of swap actions.
pub open spec fn planned_swaps(acts: Seq<Action>) -> Seq<SwapInstruction> {
    acts.map(|k: int, a: Action| a->Swap_instruction)
}

/// What the entry point dispatches for an accepted request: the plan's
/// swaps in order, then one self-addressed continuation into the
/// provide-liquidity stage carrying the balanced basket.
pub open spec fn start_actions_ok(
    acts: Seq<Action>,
    deposit: Seq<AssetAmount>,
    pool: PoolInfo,
    min_out: u128,
    final_recipient: Seq<char>,
) -> bool {
    &&& acts.len() >= 1
    &&& forall|k: int|
        0 <= k < acts.len() - 1 ==> ((#[trigger] acts[k]) matches Action::Swap {
            pool: p,
            instruction: _,
        } && p.pool_id == pool.pool_id && p.share_token == pool.share_token)
    &&& swap_plan_ok(planned_swaps(acts.take(acts.len() - 1)), deposit, pool.reserves@)
    &&& (acts.last() matches Action::Callback {
        msg: CallbackMsg::ProvideLiquidity { assets, min_out: mo, pool: p, recipient: r },
    } && ({
        &&& mo == min_out
        &&& p.pool_id == pool.pool_id
        &&& p.share_token == pool.share_token
        &&& r@ == final_recipient
        &&& assets.entries@.len() == pool.reserves@.len()
        &&& forall|i: int|
            0 <= i < pool.reserves@.len() ==> (#[trigger] assets.entries@[i]).id
                == pool.reserves@[i].id
        &&& forall|i: int|
            0 <= i < pool.reserves@.len() ==> (#[trigger] assets.entries@[i]).amount as int
                == target_amt(deposit, pool.reserves@, i)
    }))
    &&& ((forall|i: int|
        0 <= i < pool.reserves@.len() ==> dep_amt(deposit, pool.reserves@, i) <= target_amt(
            deposit,
            pool.reserves@,
            i,
        )) ==> acts.len() == 1)
}

/// The entry point: validates the deposited basket, computes the balancing
/// plan, and dispatches the plan's swaps followed by the continuation into
/// the provide-liquidity stage.
///
/// Accepted exactly when the basket is a valid deposit over the pool's
/// required asset set and the exact-integer plan fits the machine; each
/// rejection names its reason, and a rejected request dispatches nothing.
pub fn start_request(
    assets: Vec<AssetAmount>,
    min_out: u128,
    pool: &PoolInfo,
    sender: String,
    recipient: Option<String>,
) -> (r: Result<Vec<Action>, HelperError>)
    requires
        pool.wf(),
    ensures
        match r {
            Ok(acts) => {
                &&& Basket::spec_valid_deposit(assets@)
                &&& deposit_supported(assets@, pool.reserves@)
                &&& overflow_free(assets@, pool.reserves@)
                &&& start_actions_ok(
                    acts@,
                    assets@,
                    *pool,
                    min_out,
                    match recipient {
                        Some(to) => to@,
                        None => sender@,
                    },
                )
            },
            Err(e) => {
                &&& (e == HelperError::InvalidInput <==> !Basket::spec_valid_deposit(assets@))
                &&& (e == HelperError::UnsupportedAsset <==> Basket::spec_valid_deposit(assets@)
                    && !deposit_supported(assets@, pool.reserves@))
                &&& (e == HelperError::ValueOverflow <==> Basket::spec_valid_deposit(assets@)
                    && deposit_supported(assets@, pool.reserves@) && !overflow_free(
                    assets@,
                    pool.reserves@,
                ))
            },
        },
        r is Ok <==> Basket::spec_valid_deposit(assets@) && deposit_supported(
            assets@,
            pool.reserves@,
        ) && overflow_free(assets@, pool.reserves@),
{
    let basket = match Basket::try_from_entries(assets) {
        Ok(b) => b,
        Err(e) => {
            return Err(e);
        },
    };
    let plan = match balance_basket(&basket, pool) {
        Ok(p) => p,
        Err(e) => {
            return Err(e);
        },
    };
    let to = match recipient {
        Some(to) => to,
        None => sender,
    };
    let n_swaps = plan.swaps.len();
    let mut acts: Vec<Action> = Vec::new();
    for k in 0..n_swaps
        invariant
            n_swaps == plan.swaps@.len(),
            acts@.len() == k,
            forall|j: int|
                0 <= j < k ==> ((#[trigger] acts@[j]) matches Action::Swap {
                    pool: p,
                    instruction: ins,
                } && p.pool_id == pool.pool_id && p.share_token == pool.share_token && ins
                    == plan.swaps@[j]),
    {
        acts.push(
            Action::Swap { pool: pool.reference(), instruction: plan.swaps[k] },
        );
    }
    let ghost swap_acts = acts@;
    acts.push(
        Action::Callback {
            msg: CallbackMsg::ProvideLiquidity {
                assets: plan.basket,
                min_out,
                pool: pool.reference(),
                recipient: to,
            },
        },
    );
    proof {
        assert(acts@.take(acts@.len() - 1) =~= swap_acts);
        assert(planned_swaps(swap_acts) =~= plan.swaps@);
    }
    Ok(acts)
}

/// What the provide-liquidity stage dispatches: the pool's
/// provide-liquidity instruction with the balanced basket, then one
/// self-addressed continuation into the return-shares stage carrying the
/// share-balance checkpoint.
pub open spec fn provide_actions_ok(
    acts: Seq<Action>,
    assets: Basket,
    min_out: u128,
    pool: PoolRef,
    recipient: Seq<char>,
    current_share_balance: u128,
) -> bool {
    &&& acts.len() == 2
    &&& (acts[0] matches Action::ProvideLiquidity { pool: p, assets: a } && p == pool
        && a.entries@ == assets.entries@)
    &&& (acts[1] matches Action::Callback {
        msg: CallbackMsg::ReturnLpTokens { pool: p, balance_before, min_out: mo, recipient: r },
    } && ({
        &&& p == pool
        &&& balance_before == current_share_balance
        &&& mo == min_out
        &&& r@ == recipient
    }))
}

/// The provide-liquidity stage. `current_share_balance` is this system's
/// holding of the pool's share token, freshly read by the host-facing
/// layer within this same stage — never a cached value; it is recorded as
/// a checkpoint and carried into the terminal stage.
pub fn provide_liquidity_stage(
    assets: Basket,
    min_out: u128,
    pool: PoolRef,
    recipient: String,
    self_address: &String,
    current_share_balance: u128,
) -> (acts: Vec<Action>)
    ensures
        provide_actions_ok(acts@, assets, min_out, pool, recipient@, current_share_balance),
{
    let cp = checkpoint(pool.share_token, self_address.clone(), current_share_balance);
    let mut acts: Vec<Action> = Vec::new();
    acts.push(Action::ProvideLiquidity { pool, assets });
    acts.push(
        Action::Callback {
            msg: CallbackMsg::ReturnLpTokens {
                pool,
                balance_before: cp.snapshot,
                min_out,
                recipient,
            },
        },
    );
    acts
}

/// The outcome the return-shares stage owes: the minted delta when it
/// reached the caller's minimum, `SlippageExceeded` when it fell short,
/// and the accounting defect signal when the delta was negative.
pub open spec fn spec_return_outcome(balance_before: u128, min_out: u128, current: u128) -> Result<
    u128,
    HelperError,
> {
    match spec_resolve(balance_before, current) {
        Ok(minted) => if minted < min_out {
            Err(HelperError::SlippageExceeded)
        } else {
            Ok(minted)
        },
        Err(e) => Err(e),
    }
}

/// The terminal return-shares stage: resolves the freshly re-read share
/// balance against the checkpoint and transfers exactly the minted delta
/// to the recipient. A shortfall aborts with `SlippageExceeded`; the host
/// ledger then rolls back every effect of the whole request.
pub fn return_shares_stage(
    pool: PoolRef,
    balance_before: u128,
    min_out: u128,
    recipient: String,
    self_address: &String,
    current_balance: u128,
) -> (r: Result<Action, HelperError>)
    ensures
        match r {
            Ok(a) => spec_return_outcome(balance_before, min_out, current_balance) matches Ok(m)
                && (a matches Action::TransferShares { token, amount, recipient: to } && token
                == pool.share_token && amount == m && to@ == recipient@),
            Err(e) => spec_return_outcome(balance_before, min_out, current_balance) == Err::<
                u128,
                HelperError,
            >(e),
        },
{
    let cp = checkpoint(pool.share_token, self_address.clone(), balance_before);
    let minted = match resolve(&cp, current_balance) {
        Ok(m) => m,
        Err(e) => {
            return Err(e);
        },
    };
    if minted < min_out {
        return Err(HelperError::SlippageExceeded);
    }
    Ok(Action::TransferShares { token: pool.share_token, amount: minted, recipient })
}

/// The continuation dispatcher: every stage accepts a continuation message
/// only from this system's own account. An unauthorized message is
/// rejected before anything else is decided and dispatches nothing, for
/// both stage types; an authorized one runs its stage.
pub fn handle_callback(
    self_address: &String,
    sender: &String,
    msg: CallbackMsg,
    current_share_balance: u128,
) -> (r: Result<Vec<Action>, HelperError>)
    ensures
        sender@ != self_address@ <==> (r matches Err(e) && e == HelperError::Unauthorized),
        sender@ == self_address@ ==> match msg {
            CallbackMsg::ProvideLiquidity { assets, min_out, pool, recipient } => r matches Ok(
                acts,
            ) && provide_actions_ok(
                acts@,
                assets,
                min_out,
                pool,
                recipient@,
                current_share_balance,
            ),
            CallbackMsg::ReturnLpTokens { pool, balance_before, min_out, recipient } => match
                spec_return_outcome(balance_before, min_out, current_share_balance) {
                Ok(m) => r matches Ok(acts) && acts.len() == 1 && (acts[0] matches
                    Action::TransferShares { token, amount, recipient: to } && token
                    == pool.share_token && amount == m && to@ == recipient@),
                Err(e) => r matches Err(e2) && e2 == e,
            },
        },
{
    if !(*sender == *self_address) {
        return Err(HelperError::Unauthorized);
    }
    match msg {
        CallbackMsg::ProvideLiquidity { assets, min_out, pool, recipient } => {
            Ok(
                provide_liquidity_stage(
                    assets,
                    min_out,
                    pool,
                    recipient,
                    self_address,
                    current_share_balance,
                ),
            )
        },
        CallbackMsg::ReturnLpTokens { pool, balance_before, min_out, recipient } => {
            let act = match return_shares_stage(
                pool,
                balance_before,
                min_out,
                recipient,
                self_address,
                current_share_balance,
            ) {
                Ok(a) => a,
                Err(e) => {
                    return Err(e);
                },
            };
            let mut acts: Vec<Action> = Vec::new();
            acts.push(act);
            Ok(acts)
        },
    }
}

/// Slippage is deliberately checked only once the true minted amount is
/// known: whenever the delta falls short of the caller's minimum, the
/// terminal stage reports `SlippageExceeded` and dispatches no transfer,
/// and the host ledger's all-or-nothing guarantee then restores every
/// balance the request touched to its pre-request value.
pub proof fn lemma_slippage_aborts(balance_before: u128, min_out: u128, current: u128)
    requires
        balance_before <= current,
        current - balance_before < min_out,
    ensures
        spec_return_outcome(balance_before, min_out, current) == Err::<u128, HelperError>(
            HelperError::SlippageExceeded,
        ),
{
}

} // verus!
