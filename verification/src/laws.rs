//! System-wide laws, proved from the operations' own specifications.
//!
//! Each proof function here states a property that relates several
//! operations or several calls of one operation; single-call properties
//! (such as "a failed call leaves the state untouched") stand directly in
//! the `ensures` of the operations themselves.

use vstd::prelude::*;
use crate::errors::BridgeError;
use crate::fees::FeeTier;
use crate::fees::lemma_lookup_tier_in_range;
use crate::fees::lemma_lookup_tier_monotonic;
use crate::fees::spec_lookup_fee;
use crate::fees::spec_lookup_tier;
use crate::fees::tiers_ascending;
use crate::ids::AccountId;
use crate::orch::can_claim;
use crate::orch::can_fill_order;
use crate::orch::can_revert_order;
use crate::order::has_order_hash;
use crate::order::has_order_key;
use crate::order::lemma_order_hash_index_unique;
use crate::order::lemma_orders_update_same_keys;
use crate::order::order_hash_index;
use crate::order::with_status;
use crate::orders::create_order_err;
use crate::orders::create_order_ok_post;
use crate::orders::fill_order_err;
use crate::orders::protocol_cut;
use crate::orders::revert_order_err;
use crate::orders::revert_order_ok_post;
use crate::state::Bridge;
use crate::state::same_frozen;
use crate::state::same_params;
use crate::state::same_tier_tables;
use crate::vault::FeeType;
use crate::vault::bal_of;
use crate::vault::fee_pool_of;
use crate::vault::has_pool;
use crate::vault::lemma_ledger_credit_frame;
use crate::vault::lemma_pool_deposit_frame;
use crate::vault::lemma_pool_sub_frame;
use crate::vault::liquidity_of;
use crate::vault::vault_total;
use crate::vault_ops::claim_fees_err;
use crate::vault_ops::claim_fees_ok_post;

verus! {

/// For a tier table whose rates do not decrease from tier to tier, the
/// looked-up fee is monotonic non-decreasing in the amount.  (The matched
/// tier index is monotonic for every ascending table; see
/// [`lemma_lookup_tier_monotonic`].)
pub proof fn lemma_lookup_fee_monotonic(a1: u64, a2: u64, s: Seq<FeeTier>)
    requires
        s.len() > 0,
        tiers_ascending(s),
        forall|i: int, j: int| 0 <= i < j < s.len() ==> s[i].bps_fee <= s[j].bps_fee,
        a1 <= a2,
    ensures
        spec_lookup_fee(a1, s) <= spec_lookup_fee(a2, s),
{
    lemma_lookup_tier_in_range(a1, s);
    lemma_lookup_tier_in_range(a2, s);
    lemma_lookup_tier_monotonic(a1, a2, s);
    let t1 = spec_lookup_tier(a1, s);
    let t2 = spec_lookup_tier(a2, s);
    if t1 < t2 {
        assert(s[t1].bps_fee <= s[t2].bps_fee);
    }
}

/// Creating the same `(trader, seed)` order twice fails the second time
/// with `OrderAlreadyExists`, and the first creation grows the vault's
/// holdings of `token_in` by exactly the deposited amount.  (That the
/// rejected second call changes nothing is the `r is Err` clause of
/// `create_order` itself.)
pub proof fn lemma_create_order_replay(
    pre: Bridge,
    mid: Bridge,
    trader: AccountId,
    amount: u64,
    seed: [u8; 32],
    order_hash: [u8; 32],
    receiver: [u8; 32],
    src_chain_id: u32,
    dest_chain_id: u32,
    token_in: AccountId,
    fee: u64,
    min_amount_out: String,
    token_out: AccountId,
)
    requires
        pre.wf(),
        create_order_err(pre, trader, amount, seed, order_hash, token_in, fee) is None,
        create_order_ok_post(
            pre,
            mid,
            trader,
            amount,
            seed,
            order_hash,
            receiver,
            src_chain_id,
            dest_chain_id,
            token_in,
            fee,
            min_amount_out,
            token_out,
        ),
    ensures
        create_order_err(mid, trader, amount, seed, order_hash, token_in, fee) == Some(
            BridgeError::OrderAlreadyExists,
        ),
        vault_total(mid.pools@, token_in@) == vault_total(pre.pools@, token_in@) + amount,
{
    let n = pre.orders@.len() as int;
    assert(mid.orders@[n].trader@ == trader@ && mid.orders@[n].seed@ == seed@);
    assert(has_order_key(mid.orders@, trader@, seed@));
    assert(same_frozen(pre.global, mid.global) && same_params(pre.global, mid.global));
    let cut = protocol_cut(
        fee,
        pre.global.protocol_fee_numerator,
        pre.global.protocol_fee_denominator,
    );
    assert(cut >= 0) by (nonlinear_arith)
        requires
            cut == fee as int * pre.global.protocol_fee_numerator as int
                / pre.global.protocol_fee_denominator as int,
            pre.global.protocol_fee_denominator > 0,
    ;
    lemma_pool_deposit_frame(
        pre.pools@,
        token_in,
        (amount - fee) as u64,
        (fee - cut) as u64,
        cut as u64,
    );
}

/// A reverted order is terminal: its deposit less the fee has gone back
/// to the trader out of the vault's liquidity, and any further revert or
/// fill attempt by an authorized orchestrator fails with
/// `InvalidOrderStatus`.
pub proof fn lemma_revert_order_terminal(
    pre: Bridge,
    mid: Bridge,
    caller: AccountId,
    order_hash: [u8; 32],
    again: AccountId,
    amount: u64,
    seed: [u8; 32],
    trader: [u8; 32],
    src_chain_id: u32,
    dest_chain_id: u32,
    token_in: AccountId,
    fee: u64,
    min_amount_out: Seq<char>,
)
    requires
        pre.wf(),
        revert_order_err(pre, caller, order_hash) is None,
        revert_order_ok_post(pre, mid, caller, order_hash),
    ensures
        ({
            let o = pre.orders@[order_hash_index(pre.orders@, order_hash@)];
            &&& bal_of(mid.ledger@, o.trader@, o.token_in@) == bal_of(
                pre.ledger@,
                o.trader@,
                o.token_in@,
            ) + o.amount - o.fee
            &&& liquidity_of(mid.pools@, o.token_in@) == liquidity_of(pre.pools@, o.token_in@) - (
            o.amount - o.fee)
        }),
        can_revert_order(mid.orchestrators@, again@) ==> revert_order_err(mid, again, order_hash)
            == Some(BridgeError::InvalidOrderStatus),
        can_fill_order(mid.orchestrators@, again@) && !mid.global.frozen ==> fill_order_err(
            mid,
            again,
            amount,
            seed,
            order_hash,
            trader,
            src_chain_id,
            dest_chain_id,
            token_in,
            fee,
            min_amount_out,
        ) == Some(BridgeError::InvalidOrderStatus),
{
    let idx = order_hash_index(pre.orders@, order_hash@);
    let o = pre.orders@[idx];
    let refund = (o.amount - o.fee) as u64;
    assert(o.fee <= o.amount && o.amount > 0);
    lemma_ledger_credit_frame(pre.ledger@, o.trader, o.token_in, refund);
    if has_pool(pre.pools@, o.token_in@) {
        lemma_pool_sub_frame(pre.pools@, o.token_in@, refund, 0, 0, 0);
    }
    lemma_orders_update_same_keys(pre.orders@, idx, with_status(o, crate::order::OrderStatus::Reverted));
    assert(mid.orders@[idx].order_hash@ == order_hash@);
    lemma_order_hash_index_unique(mid.orders@, order_hash@, idx);
    assert(!(mid.orders@[idx].status is Created));
}

/// While the system is frozen, `create_order` rejects every call, with
/// every argument list, with exactly `GlobalStateFrozen`; once thawed, no
/// call is rejected for that reason.  Together with the contracts of
/// `freeze_global_state` and `thaw_global_state` (which flip only the
/// freeze switch) this pins the behaviour around a freeze/thaw cycle.
pub proof fn lemma_freeze_gates_create(
    frozen_state: Bridge,
    thawed_state: Bridge,
    trader: AccountId,
    amount: u64,
    seed: [u8; 32],
    order_hash: [u8; 32],
    token_in: AccountId,
    fee: u64,
)
    requires
        frozen_state.global.frozen,
        !thawed_state.global.frozen,
    ensures
        create_order_err(frozen_state, trader, amount, seed, order_hash, token_in, fee) == Some(
            BridgeError::GlobalStateFrozen,
        ),
        create_order_err(thawed_state, trader, amount, seed, order_hash, token_in, fee) != Some(
            BridgeError::GlobalStateFrozen,
        ),
{
}

/// A claim for more than the pool holds fails with
/// `InsufficientVaultBalance` (and, by `claim_fees`' own contract, leaves
/// everything unchanged); a claim within the pool moves exactly the
/// claimed amount from the pool to the caller's balance.
pub proof fn lemma_claim_fees_accounting(
    pre: Bridge,
    post: Bridge,
    caller: AccountId,
    token: AccountId,
    amount: u64,
    fee_type: FeeType,
)
    requires
        pre.wf(),
        can_claim(pre.orchestrators@, caller@, fee_type),
    ensures
        fee_pool_of(pre.pools@, token@, fee_type) < amount ==> claim_fees_err(
            pre,
            caller,
            token,
            amount,
            fee_type,
        ) == Some(BridgeError::InsufficientVaultBalance),
        claim_fees_err(pre, caller, token, amount, fee_type) is None && claim_fees_ok_post(
            pre,
            post,
            caller,
            token,
            amount,
            fee_type,
        ) ==> fee_pool_of(post.pools@, token@, fee_type) == fee_pool_of(
            pre.pools@,
            token@,
            fee_type,
        ) - amount && bal_of(post.ledger@, caller@, token@) == bal_of(
            pre.ledger@,
            caller@,
            token@,
        ) + amount,
{
    if claim_fees_err(pre, caller, token, amount, fee_type) is None && claim_fees_ok_post(
        pre,
        post,
        caller,
        token,
        amount,
        fee_type,
    ) {
        lemma_ledger_credit_frame(pre.ledger@, caller, token, amount);
        if has_pool(pre.pools@, token@) {
            match fee_type {
                FeeType::Base => lemma_pool_sub_frame(pre.pools@, token@, 0, amount, 0, 0),
                FeeType::Lp => lemma_pool_sub_frame(pre.pools@, token@, 0, 0, amount, 0),
                FeeType::Protocol => lemma_pool_sub_frame(pre.pools@, token@, 0, 0, 0, amount),
            }
        }
    }
}

} // verus!
