//! The order lifecycle engine: create, two-phase fill, revert.
//!
//! Each operation's outcome is pinned by a pair of specification
//! functions: an error function that names the single taxonomy entry a
//! rejected call reports (the first failing check, in the order the checks
//! run), and a postcondition relation that fixes the whole state a
//! successful call leaves behind.

use vstd::prelude::*;
use crate::decimal::dec_val;
use crate::decimal::is_dec_string;
use crate::decimal::parse_decimal;
use crate::errors::BridgeError;
use crate::fees::lookup_fee;
use crate::fees::spec_lookup_fee;
use crate::ids::AccountId;
use crate::order::Order;
use crate::order::OrderStatus;
use crate::order::find_order_by_hash;
use crate::order::find_order_by_key;
use crate::order::has_order_hash;
use crate::order::has_order_key;
use crate::order::lemma_order_hash_index_unique;
use crate::order::order_hash_index;
use crate::orch::active_record;
use crate::orch::can_fill_order;
use crate::orch::can_revert_order;
use crate::order::FillSnapshot;
use crate::order::with_snapshot;
use crate::order::with_status;
use crate::state::Bridge;
use crate::state::same_global;
use crate::vault::bal_of;
use crate::vault::find_pool;
use crate::vault::has_entry;
use crate::vault::has_pool;
use crate::vault::ledger_balance;
use crate::vault::ledger_credit;
use crate::vault::ledger_debit;
use crate::vault::lemma_ledger_debit_frame;
use crate::vault::lemma_pool_deposit_frame;
use crate::vault::lemma_pool_index_unique;
use crate::vault::lemma_pool_sub_frame;
use crate::vault::liquidity_of;
use crate::vault::Pool;
use crate::vault::pool_deposit_overflows;
use crate::vault::pool_of;
use crate::vault::spec_ledger_credit;
use crate::vault::spec_ledger_debit;
use crate::vault::spec_pool_deposit;
use crate::vault::spec_pool_sub;

verus! {

/// The fee the schedule derives for an amount: the matched tier's bps rate
/// applied to the whole amount.
pub open spec fn expected_fee(amount: u64, tiers: Seq<crate::fees::FeeTier>) -> int {
    amount as int * spec_lookup_fee(amount, tiers) as int / 10000
}

/// The protocol's share of an assessed fee.
pub open spec fn protocol_cut(fee: u64, num: u64, den: u64) -> int {
    fee as int * num as int / den as int
}

/// The single error `create_order` reports, or `None` when it succeeds:
/// the first failing check, in the order the checks run.
pub open spec fn create_order_err(
    pre: Bridge,
    trader: AccountId,
    amount: u64,
    seed: [u8; 32],
    order_hash: [u8; 32],
    token_in: AccountId,
    fee: u64,
) -> Option<BridgeError> {
    let tiers = pre.global.fee_tiers@;
    let num = pre.global.protocol_fee_numerator;
    let den = pre.global.protocol_fee_denominator;
    if pre.global.frozen {
        Some(BridgeError::GlobalStateFrozen)
    } else if amount == 0 || amount > pre.global.max_order_amount {
        Some(BridgeError::InvalidAmount)
    } else if has_order_key(pre.orders@, trader@, seed@) || has_order_hash(
        pre.orders@,
        order_hash@,
    ) {
        Some(BridgeError::OrderAlreadyExists)
    } else if tiers.len() == 0 {
        Some(BridgeError::FeeTierConfigInvalid)
    } else if amount as int * spec_lookup_fee(amount, tiers) as int > u64::MAX {
        Some(BridgeError::ArithmeticOverflow)
    } else if fee != expected_fee(amount, tiers) || fee > amount {
        Some(BridgeError::InvalidAmount)
    } else if fee as int * num as int > u64::MAX {
        Some(BridgeError::ArithmeticOverflow)
    } else if protocol_cut(fee, num, den) > fee {
        Some(BridgeError::ArithmeticOverflow)
    } else if pool_deposit_overflows(
        pre.pools@,
        token_in@,
        (amount - fee) as u64,
        (fee - protocol_cut(fee, num, den)) as u64,
        protocol_cut(fee, num, den) as u64,
    ) {
        Some(BridgeError::ArithmeticOverflow)
    } else if bal_of(pre.ledger@, trader@, token_in@) < amount {
        Some(BridgeError::TransferFailed)
    } else {
        None
    }
}

/// The record `create_order` stores.
pub open spec fn created_order(
    trader: AccountId,
    amount: u64,
    seed: [u8; 32],
    order_hash: [u8; 32],
    receiver: [u8; 32],
    src_chain_id: u32,
    dest_chain_id: u32,
    token_in: AccountId,
    fee: u64,
    min_amount_out: String,
    token_out: AccountId,
) -> Order {
    Order {
        order_hash,
        seed,
        trader,
        receiver,
        src_chain_id,
        dest_chain_id,
        token_in,
        token_out,
        amount,
        fee,
        min_amount_out,
        status: OrderStatus::Created,
        fill: None,
    }
}

/// Everything a successful `create_order` changes: the trader pays the
/// amount into the vault, the fee splits into the protocol and base pools,
/// the rest becomes bridge liquidity, and the new record is appended.
pub open spec fn create_order_ok_post(
    pre: Bridge,
    post: Bridge,
    trader: AccountId,
    amount: u64,
    seed: [u8; 32],
    order_hash: [u8; 32],
    receiver: [u8; 32],
    src_chain_id: u32,
    dest_chain_id: u32,
    token_in: AccountId,
    fee: u64,
    min_amount_out: String,
    token_out: AccountId,
) -> bool {
    let cut = protocol_cut(
        fee,
        pre.global.protocol_fee_numerator,
        pre.global.protocol_fee_denominator,
    );
    &&& same_global(pre.global, post.global)
    &&& post.orchestrators@ == pre.orchestrators@
    &&& post.chain_min_fees@ == pre.chain_min_fees@
    &&& post.ledger@ == spec_ledger_debit(pre.ledger@, trader, token_in, amount)
    &&& post.pools@ == spec_pool_deposit(
        pre.pools@,
        token_in,
        (amount - fee) as u64,
        (fee - cut) as u64,
        cut as u64,
    )
    &&& post.orders@ == pre.orders@.push(
        created_order(
            trader,
            amount,
            seed,
            order_hash,
            receiver,
            src_chain_id,
            dest_chain_id,
            token_in,
            fee,
            min_amount_out,
            token_out,
        ),
    )
}

/// Whether an order's stored fields match the arguments a fill supplies;
/// a stale or mismatched fill attempt is rejected.
pub open spec fn fill_order_matches(
    o: Order,
    amount: u64,
    seed: [u8; 32],
    trader: [u8; 32],
    src_chain_id: u32,
    dest_chain_id: u32,
    token_in: AccountId,
    fee: u64,
    min_amount_out: Seq<char>,
) -> bool {
    &&& o.amount == amount
    &&& o.seed@ == seed@
    &&& o.trader@ == trader@
    &&& o.src_chain_id == src_chain_id
    &&& o.dest_chain_id == dest_chain_id
    &&& o.token_in@ == token_in@
    &&& o.fee == fee
    &&& o.min_amount_out@ == min_amount_out
}

/// The single error the first fill phase reports, or `None` when it
/// succeeds.
pub open spec fn fill_order_err(
    pre: Bridge,
    caller: AccountId,
    amount: u64,
    seed: [u8; 32],
    order_hash: [u8; 32],
    trader: [u8; 32],
    src_chain_id: u32,
    dest_chain_id: u32,
    token_in: AccountId,
    fee: u64,
    min_amount_out: Seq<char>,
) -> Option<BridgeError> {
    if !can_fill_order(pre.orchestrators@, caller@) {
        Some(BridgeError::Unauthorized)
    } else if pre.global.frozen {
        Some(BridgeError::GlobalStateFrozen)
    } else if !has_order_hash(pre.orders@, order_hash@) {
        Some(BridgeError::OrderNotFound)
    } else {
        let o = pre.orders@[order_hash_index(pre.orders@, order_hash@)];
        if !(o.status is Created) {
            Some(BridgeError::InvalidOrderStatus)
        } else if !fill_order_matches(
            o,
            amount,
            seed,
            trader,
            src_chain_id,
            dest_chain_id,
            token_in,
            fee,
            min_amount_out,
        ) {
            Some(BridgeError::OrderNotFound)
        } else if !(is_dec_string(o.min_amount_out@) && dec_val(o.min_amount_out@) <= u64::MAX) {
            Some(BridgeError::InvalidAmount)
        } else {
            None
        }
    }
}

/// Everything a successful first fill phase changes: the order gains a
/// snapshot of the orchestrator's payout-token balance and the parsed
/// minimum payout; no funds move yet.
pub open spec fn fill_order_ok_post(
    pre: Bridge,
    post: Bridge,
    caller: AccountId,
    order_hash: [u8; 32],
) -> bool {
    let idx = order_hash_index(pre.orders@, order_hash@);
    let o = pre.orders@[idx];
    let snap = FillSnapshot {
        orchestrator: caller,
        prev_balance: bal_of(pre.ledger@, caller@, o.token_out@) as u64,
        min_amount_out: dec_val(o.min_amount_out@) as u64,
    };
    &&& same_global(pre.global, post.global)
    &&& post.orchestrators@ == pre.orchestrators@
    &&& post.pools@ == pre.pools@
    &&& post.ledger@ == pre.ledger@
    &&& post.chain_min_fees@ == pre.chain_min_fees@
    &&& post.orders@ == pre.orders@.update(idx, with_snapshot(o, snap))
}

/// The single error the second fill phase reports, or `None` when it
/// succeeds.  The payout credited is the observed balance delta, never a
/// declared value.
pub open spec fn fill_transfer_err(
    pre: Bridge,
    caller: AccountId,
    order_hash: [u8; 32],
    min_amount_out: u64,
    orchestrator_prev_balance: u64,
) -> Option<BridgeError> {
    if !has_order_hash(pre.orders@, order_hash@) {
        Some(BridgeError::OrderNotFound)
    } else {
        let o = pre.orders@[order_hash_index(pre.orders@, order_hash@)];
        if !(o.status is Created) || o.fill is None {
            Some(BridgeError::InvalidOrderStatus)
        } else {
            match o.fill {
                Some(snap) => {
                    if snap.orchestrator@ != caller@ {
                        Some(BridgeError::Unauthorized)
                    } else if min_amount_out != snap.min_amount_out || orchestrator_prev_balance
                        != snap.prev_balance {
                        Some(BridgeError::InvalidAmount)
                    } else {
                        let current = bal_of(pre.ledger@, caller@, o.token_out@);
                        let actual = if current >= snap.prev_balance {
                            current - snap.prev_balance
                        } else {
                            0
                        };
                        if actual < snap.min_amount_out {
                            Some(BridgeError::MinAmountOutNotMet)
                        } else if actual > 0 && o.receiver@ != caller@ && bal_of(
                            pre.ledger@,
                            o.receiver@,
                            o.token_out@,
                        ) + actual > u64::MAX {
                            Some(BridgeError::ArithmeticOverflow)
                        } else {
                            None
                        }
                    }
                },
                None => Some(BridgeError::InvalidOrderStatus),
            }
        }
    }
}

/// Everything a successful second fill phase changes: the observed balance
/// delta moves from the orchestrator to the receiver and the order becomes
/// `Filled`.
pub open spec fn fill_transfer_ok_post(
    pre: Bridge,
    post: Bridge,
    caller: AccountId,
    order_hash: [u8; 32],
) -> bool {
    let idx = order_hash_index(pre.orders@, order_hash@);
    let o = pre.orders@[idx];
    match o.fill {
        Some(snap) => {
            let current = bal_of(pre.ledger@, caller@, o.token_out@);
            let actual = if current >= snap.prev_balance {
                (current - snap.prev_balance) as u64
            } else {
                0
            };
            &&& same_global(pre.global, post.global)
            &&& post.orchestrators@ == pre.orchestrators@
            &&& post.pools@ == pre.pools@
            &&& post.chain_min_fees@ == pre.chain_min_fees@
            &&& post.ledger@ == (if actual > 0 {
                spec_ledger_credit(
                    spec_ledger_debit(pre.ledger@, caller, o.token_out, actual),
                    o.receiver,
                    o.token_out,
                    actual,
                )
            } else {
                pre.ledger@
            })
            &&& post.orders@ == pre.orders@.update(idx, with_status(o, OrderStatus::Filled))
        },
        None => false,
    }
}

/// The single error `revert_order` reports, or `None` when it succeeds.
pub open spec fn revert_order_err(pre: Bridge, caller: AccountId, order_hash: [u8; 32]) -> Option<
    BridgeError,
> {
    if !can_revert_order(pre.orchestrators@, caller@) {
        Some(BridgeError::Unauthorized)
    } else if !has_order_hash(pre.orders@, order_hash@) {
        Some(BridgeError::OrderNotFound)
    } else {
        let o = pre.orders@[order_hash_index(pre.orders@, order_hash@)];
        if !(o.status is Created) {
            Some(BridgeError::InvalidOrderStatus)
        } else {
            let refund = o.amount as int - o.fee as int;
            if liquidity_of(pre.pools@, o.token_in@) < refund {
                Some(BridgeError::InsufficientVaultBalance)
            } else if bal_of(pre.ledger@, o.trader@, o.token_in@) + refund > u64::MAX {
                Some(BridgeError::ArithmeticOverflow)
            } else {
                None
            }
        }
    }
}

/// Everything a successful `revert_order` changes: the deposited amount
/// less the assessed fee returns from the vault's liquidity to the trader
/// and the order becomes `Reverted`.
pub open spec fn revert_order_ok_post(
    pre: Bridge,
    post: Bridge,
    caller: AccountId,
    order_hash: [u8; 32],
) -> bool {
    let idx = order_hash_index(pre.orders@, order_hash@);
    let o = pre.orders@[idx];
    let refund = (o.amount - o.fee) as u64;
    &&& same_global(pre.global, post.global)
    &&& post.orchestrators@ == pre.orchestrators@
    &&& post.chain_min_fees@ == pre.chain_min_fees@
    &&& post.pools@ == (if has_pool(pre.pools@, o.token_in@) {
        spec_pool_sub(pre.pools@, o.token_in@, refund, 0, 0, 0)
    } else {
        pre.pools@
    })
    &&& post.ledger@ == spec_ledger_credit(pre.ledger@, o.trader, o.token_in, refund)
    &&& post.orders@ == pre.orders@.update(idx, with_status(o, OrderStatus::Reverted))
}

impl Bridge {
    /// A trader deposits `amount` of `token_in` and records a bridging
    /// order.  The supplied `fee` is re-derived from the fee schedule and
    /// rejected on mismatch, so a caller cannot understate it.
    pub fn create_order(
        &mut self,
        trader: &AccountId,
        amount: u64,
        seed: [u8; 32],
        order_hash: [u8; 32],
        receiver: [u8; 32],
        src_chain_id: u32,
        dest_chain_id: u32,
        token_in: AccountId,
        fee: u64,
        min_amount_out: String,
        token_out: AccountId,
    ) -> (r: Result<(), BridgeError>)
        requires
            old(self).wf(),
        ensures
            final(self).wf(),
            r is Err ==> *final(self) == *old(self),
            (match create_order_err(*old(self), *trader, amount, seed, order_hash, token_in, fee) {
                Some(e) => r == Err::<(), BridgeError>(e),
                None => r is Ok && create_order_ok_post(
                    *old(self),
                    *final(self),
                    *trader,
                    amount,
                    seed,
                    order_hash,
                    receiver,
                    src_chain_id,
                    dest_chain_id,
                    token_in,
                    fee,
                    min_amount_out,
                    token_out,
                ),
            }),
    {
        if self.global.frozen {
            return Err(BridgeError::GlobalStateFrozen);
        }
        if amount == 0 || amount > self.global.max_order_amount {
            return Err(BridgeError::InvalidAmount);
        }
        if let Some(_i) = find_order_by_key(&self.orders, trader, &seed) {
            proof {
                assert(has_order_key(self.orders@, trader@, seed@));
            }
            return Err(BridgeError::OrderAlreadyExists);
        }
        if let Some(_i) = find_order_by_hash(&self.orders, &order_hash) {
            proof {
                assert(has_order_hash(self.orders@, order_hash@));
            }
            return Err(BridgeError::OrderAlreadyExists);
        }
        if self.global.fee_tiers.len() == 0 {
            return Err(BridgeError::FeeTierConfigInvalid);
        }
        let bps = lookup_fee(amount, &self.global.fee_tiers);
        let scaled = match amount.checked_mul(bps) {
            Some(v) => v,
            None => {
                return Err(BridgeError::ArithmeticOverflow);
            },
        };
        let derived = scaled / 10000;
        if fee != derived || fee > amount {
            return Err(BridgeError::InvalidAmount);
        }
        let num = self.global.protocol_fee_numerator;
        let den = self.global.protocol_fee_denominator;
        let cut = match crate::fees::compute_protocol_fee(fee, num, den) {
            Ok(v) => v,
            Err(e) => {
                return Err(e);
            },
        };
        if cut > fee {
            return Err(BridgeError::ArithmeticOverflow);
        }
        let liq_add = amount - fee;
        let base_add = fee - cut;
        // Reject a pool overflow before any state is touched, so a failed
        // call leaves everything unchanged.
        let pool_slot = find_pool(&self.pools, &token_in);
        match pool_slot {
            Some(i) => {
                proof {
                    lemma_pool_index_unique(self.pools@, token_in@, i as int);
                }
                let p = self.pools[i];
                if p.liquidity > u64::MAX - liq_add || p.base_fees > u64::MAX - base_add
                    || p.protocol_fees > u64::MAX - cut {
                    return Err(BridgeError::ArithmeticOverflow);
                }
            },
            None => {},
        }
        proof {
            assert(!pool_deposit_overflows(self.pools@, token_in@, liq_add, base_add, cut));
        }
        match ledger_debit(&mut self.ledger, trader, &token_in, amount) {
            Ok(()) => {},
            Err(e) => {
                proof {
                    assert(bal_of(old(self).ledger@, trader@, token_in@) < amount);
                }
                return Err(e);
            },
        }
        proof {
            lemma_pool_deposit_frame(self.pools@, token_in, liq_add, base_add, cut);
        }
        match pool_slot {
            Some(i) => {
                let p = self.pools[i];
                self.pools[i] = Pool {
                    token: p.token,
                    liquidity: p.liquidity + liq_add,
                    base_fees: p.base_fees + base_add,
                    lp_fees: p.lp_fees,
                    protocol_fees: p.protocol_fees + cut,
                };
            },
            None => {
                self.pools.push(
                    Pool {
                        token: token_in,
                        liquidity: liq_add,
                        base_fees: base_add,
                        lp_fees: 0,
                        protocol_fees: cut,
                    },
                );
            },
        }
        let ghost pre_orders = self.orders@;
        self.orders.push(
            Order {
                order_hash,
                seed,
                trader: *trader,
                receiver,
                src_chain_id,
                dest_chain_id,
                token_in,
                token_out,
                amount,
                fee,
                min_amount_out,
                status: OrderStatus::Created,
                fill: None,
            },
        );
        proof {
            let n = pre_orders.len() as int;
            assert(self.orders@[n].trader@ == trader@ && self.orders@[n].seed@ == seed@);
            assert forall|a: int, b: int|
                0 <= a < b < self.orders@.len() implies self.orders@[a].order_hash@
                != self.orders@[b].order_hash@ && !(self.orders@[a].trader@
                == self.orders@[b].trader@ && self.orders@[a].seed@ == self.orders@[b].seed@) by {
                if b < n {
                    assert(pre_orders[a].order_hash@ != pre_orders[b].order_hash@);
                    assert(!(pre_orders[a].trader@ == pre_orders[b].trader@ && pre_orders[a].seed@
                        == pre_orders[b].seed@));
                } else {
                    assert(self.orders@[a] == pre_orders[a]);
                    if self.orders@[a].order_hash@ == order_hash@ {
                        assert(has_order_hash(pre_orders, order_hash@));
                    }
                    if self.orders@[a].trader@ == trader@ && self.orders@[a].seed@ == seed@ {
                        assert(has_order_key(pre_orders, trader@, seed@));
                    }
                }
            }
        }
        Ok(())
    }

    /// Phase one of a fill: an orchestrator with the fill permission
    /// authorizes the payout of an existing `Created` order whose stored
    /// fields match the supplied ones, and records its payout-token
    /// balance before the off-chain swap, together with the parsed
    /// minimum payout.  No funds move in this phase.
    pub fn fill_order(
        &mut self,
        caller: &AccountId,
        amount: u64,
        seed: [u8; 32],
        order_hash: [u8; 32],
        trader: [u8; 32],
        src_chain_id: u32,
        dest_chain_id: u32,
        token_in: AccountId,
        fee: u64,
        min_amount_out: String,
    ) -> (r: Result<(), BridgeError>)
        requires
            old(self).wf(),
        ensures
            final(self).wf(),
            r is Err ==> *final(self) == *old(self),
            (match fill_order_err(
                *old(self),
                *caller,
                amount,
                seed,
                order_hash,
                trader,
                src_chain_id,
                dest_chain_id,
                token_in,
                fee,
                min_amount_out@,
            ) {
                Some(e) => r == Err::<(), BridgeError>(e),
                None => r is Ok && fill_order_ok_post(
                    *old(self),
                    *final(self),
                    *caller,
                    order_hash,
                ),
            }),
    {
        let permitted = match active_record(&self.orchestrators, caller) {
            Some(o) => o.fill_order_permission,
            None => false,
        };
        if !permitted {
            return Err(BridgeError::Unauthorized);
        }
        if self.global.frozen {
            return Err(BridgeError::GlobalStateFrozen);
        }
        let idx = match find_order_by_hash(&self.orders, &order_hash) {
            Some(i) => i,
            None => {
                return Err(BridgeError::OrderNotFound);
            },
        };
        proof {
            lemma_order_hash_index_unique(self.orders@, order_hash@, idx as int);
        }
        let o = &self.orders[idx];
        let created = match o.status {
            OrderStatus::Created => true,
            _ => false,
        };
        if !created {
            return Err(BridgeError::InvalidOrderStatus);
        }
        let fields_match = o.amount == amount && crate::ids::id_eq(&o.seed, &seed)
            && crate::ids::id_eq(&o.trader, &trader) && o.src_chain_id == src_chain_id
            && o.dest_chain_id == dest_chain_id && crate::ids::id_eq(&o.token_in, &token_in)
            && o.fee == fee && o.min_amount_out == min_amount_out;
        if !fields_match {
            return Err(BridgeError::OrderNotFound);
        }
        let token_out_v = o.token_out;
        let parsed = match parse_decimal(o.min_amount_out.as_str()) {
            Some(v) => v,
            None => {
                return Err(BridgeError::InvalidAmount);
            },
        };
        let prev = ledger_balance(&self.ledger, caller, &token_out_v);
        let snap = FillSnapshot {
            orchestrator: *caller,
            prev_balance: prev,
            min_amount_out: parsed,
        };
        let ghost pre_orders = self.orders@;
        let ghost oldo = self.orders@[idx as int];
        self.orders[idx].fill = Some(snap);
        proof {
            assert(self.orders@ =~= pre_orders.update(idx as int, with_snapshot(oldo, snap)));
            crate::order::lemma_orders_update_same_keys(
                pre_orders,
                idx as int,
                with_snapshot(oldo, snap),
            );
        }
        Ok(())
    }

    /// Phase two of a fill: the same orchestrator presents the snapshot
    /// values; the observed growth of its payout-token balance since the
    /// snapshot is treated as the ground-truth payout, must reach the
    /// order's minimum, and moves to the receiver; the order becomes
    /// `Filled`.
    pub fn fill_order_token_transfer(
        &mut self,
        caller: &AccountId,
        order_hash: [u8; 32],
        min_amount_out: u64,
        orchestrator_prev_balance: u64,
    ) -> (r: Result<(), BridgeError>)
        requires
            old(self).wf(),
        ensures
            final(self).wf(),
            r is Err ==> *final(self) == *old(self),
            (match fill_transfer_err(
                *old(self),
                *caller,
                order_hash,
                min_amount_out,
                orchestrator_prev_balance,
            ) {
                Some(e) => r == Err::<(), BridgeError>(e),
                None => r is Ok && fill_transfer_ok_post(
                    *old(self),
                    *final(self),
                    *caller,
                    order_hash,
                ),
            }),
    {
        let idx = match find_order_by_hash(&self.orders, &order_hash) {
            Some(i) => i,
            None => {
                return Err(BridgeError::OrderNotFound);
            },
        };
        proof {
            lemma_order_hash_index_unique(self.orders@, order_hash@, idx as int);
        }
        let o = &self.orders[idx];
        let created = match o.status {
            OrderStatus::Created => true,
            _ => false,
        };
        if !created {
            return Err(BridgeError::InvalidOrderStatus);
        }
        let snap = match o.fill {
            Some(s) => s,
            None => {
                return Err(BridgeError::InvalidOrderStatus);
            },
        };
        if !crate::ids::id_eq(&snap.orchestrator, caller) {
            return Err(BridgeError::Unauthorized);
        }
        if min_amount_out != snap.min_amount_out || orchestrator_prev_balance
            != snap.prev_balance {
            return Err(BridgeError::InvalidAmount);
        }
        let token_out_v = o.token_out;
        let receiver_v = o.receiver;
        let current = ledger_balance(&self.ledger, caller, &token_out_v);
        let actual = if current >= snap.prev_balance {
            current - snap.prev_balance
        } else {
            0
        };
        if actual < snap.min_amount_out {
            return Err(BridgeError::MinAmountOutNotMet);
        }
        if actual > 0 {
            if !crate::ids::id_eq(&receiver_v, caller) {
                let recv_bal = ledger_balance(&self.ledger, &receiver_v, &token_out_v);
                if recv_bal > u64::MAX - actual {
                    return Err(BridgeError::ArithmeticOverflow);
                }
            }
            let ghost pre_ledger = self.ledger@;
            match ledger_debit(&mut self.ledger, caller, &token_out_v, actual) {
                Ok(()) => {},
                Err(e) => {
                    proof {
                        assert(bal_of(pre_ledger, caller@, token_out_v@) == current);
                        assert(false);
                    }
                    return Err(e);
                },
            }
            proof {
                lemma_ledger_debit_frame(pre_ledger, *caller, token_out_v, actual);
            }
            match ledger_credit(&mut self.ledger, &receiver_v, &token_out_v, actual) {
                Ok(()) => {},
                Err(e) => {
                    proof {
                        assert(false);
                    }
                    return Err(e);
                },
            }
        }
        let ghost pre_orders = self.orders@;
        let ghost oldo = self.orders@[idx as int];
        self.orders[idx].status = OrderStatus::Filled;
        self.orders[idx].fill = None;
        proof {
            assert(self.orders@ =~= pre_orders.update(
                idx as int,
                with_status(oldo, OrderStatus::Filled),
            ));
            crate::order::lemma_orders_update_same_keys(
                pre_orders,
                idx as int,
                with_status(oldo, OrderStatus::Filled),
            );
        }
        Ok(())
    }

    /// An orchestrator with the revert permission abandons a `Created`
    /// order: the deposit, less the fee already assessed, returns from the
    /// vault's liquidity to the trader and the order becomes `Reverted`.
    pub fn revert_order(&mut self, caller: &AccountId, order_hash: [u8; 32]) -> (r: Result<
        (),
        BridgeError,
    >)
        requires
            old(self).wf(),
        ensures
            final(self).wf(),
            r is Err ==> *final(self) == *old(self),
            (match revert_order_err(*old(self), *caller, order_hash) {
                Some(e) => r == Err::<(), BridgeError>(e),
                None => r is Ok && revert_order_ok_post(
                    *old(self),
                    *final(self),
                    *caller,
                    order_hash,
                ),
            }),
    {
        let permitted = match active_record(&self.orchestrators, caller) {
            Some(o) => o.revert_order_permission,
            None => false,
        };
        if !permitted {
            return Err(BridgeError::Unauthorized);
        }
        let idx = match find_order_by_hash(&self.orders, &order_hash) {
            Some(i) => i,
            None => {
                return Err(BridgeError::OrderNotFound);
            },
        };
        proof {
            lemma_order_hash_index_unique(self.orders@, order_hash@, idx as int);
        }
        let o = &self.orders[idx];
        let created = match o.status {
            OrderStatus::Created => true,
            _ => false,
        };
        if !created {
            return Err(BridgeError::InvalidOrderStatus);
        }
        proof {
            assert(o.fee <= o.amount);
        }
        let refund = o.amount - o.fee;
        let token_in_v = o.token_in;
        let trader_v = o.trader;
        let pool_slot = find_pool(&self.pools, &token_in_v);
        match pool_slot {
            Some(i) => {
                proof {
                    lemma_pool_index_unique(self.pools@, token_in_v@, i as int);
                }
                if self.pools[i].liquidity < refund {
                    return Err(BridgeError::InsufficientVaultBalance);
                }
            },
            None => {
                if refund > 0 {
                    return Err(BridgeError::InsufficientVaultBalance);
                }
            },
        }
        let trader_bal = ledger_balance(&self.ledger, &trader_v, &token_in_v);
        if trader_bal > u64::MAX - refund {
            return Err(BridgeError::ArithmeticOverflow);
        }
        let ghost pre_pools = self.pools@;
        match pool_slot {
            Some(i) => {
                let p = self.pools[i];
                self.pools[i] = Pool {
                    token: p.token,
                    liquidity: p.liquidity - refund,
                    base_fees: p.base_fees,
                    lp_fees: p.lp_fees,
                    protocol_fees: p.protocol_fees,
                };
                proof {
                    lemma_pool_sub_frame(pre_pools, token_in_v@, refund, 0, 0, 0);
                    assert(self.pools@ =~= spec_pool_sub(pre_pools, token_in_v@, refund, 0, 0, 0));
                }
            },
            None => {},
        }
        match ledger_credit(&mut self.ledger, &trader_v, &token_in_v, refund) {
            Ok(()) => {},
            Err(e) => {
                proof {
                    assert(false);
                }
                return Err(e);
            },
        }
        let ghost pre_orders = self.orders@;
        let ghost oldo = self.orders@[idx as int];
        self.orders[idx].status = OrderStatus::Reverted;
        self.orders[idx].fill = None;
        proof {
            assert(self.orders@ =~= pre_orders.update(
                idx as int,
                with_status(oldo, OrderStatus::Reverted),
            ));
            crate::order::lemma_orders_update_same_keys(
                pre_orders,
                idx as int,
                with_status(oldo, OrderStatus::Reverted),
            );
        }
        Ok(())
    }
}

} // verus!
