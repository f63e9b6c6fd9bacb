//! Vault and fee accounting operations: fee claims, bridge liquidity
//! withdrawal, external funding of ledger accounts, and read access for
//! hosts and tests.

use vstd::prelude::*;
use crate::errors::BridgeError;
use crate::ids::AccountId;
use crate::orch::active_record;
use crate::orch::can_claim;
use crate::orch::can_remove_liquidity;
use crate::order::OrderStatus;
use crate::order::find_order_by_hash;
use crate::order::has_order_hash;
use crate::order::lemma_order_hash_index_unique;
use crate::order::order_hash_index;
use crate::state::Bridge;
use crate::state::same_global;
use crate::vault::FeeType;
use crate::vault::Pool;
use crate::vault::bal_of;
use crate::vault::fee_pool_of;
use crate::vault::find_pool;
use crate::vault::has_pool;
use crate::vault::ledger_balance;
use crate::vault::ledger_credit;
use crate::vault::lemma_pool_index_unique;
use crate::vault::lemma_pool_sub_frame;
use crate::vault::liquidity_of;
use crate::vault::spec_ledger_credit;
use crate::vault::spec_pool_sub;

verus! {

/// The single error `claim_fees` reports, or `None` when it succeeds.
pub open spec fn claim_fees_err(
    pre: Bridge,
    caller: AccountId,
    token: AccountId,
    amount: u64,
    fee_type: FeeType,
) -> Option<BridgeError> {
    if !can_claim(pre.orchestrators@, caller@, fee_type) {
        Some(BridgeError::Unauthorized)
    } else if fee_pool_of(pre.pools@, token@, fee_type) < amount {
        Some(BridgeError::InsufficientVaultBalance)
    } else if bal_of(pre.ledger@, caller@, token@) + amount > u64::MAX {
        Some(BridgeError::ArithmeticOverflow)
    } else {
        None
    }
}

/// Everything a successful `claim_fees` changes: the matching pool loses
/// exactly the amount and the caller's balance gains it.
pub open spec fn claim_fees_ok_post(
    pre: Bridge,
    post: Bridge,
    caller: AccountId,
    token: AccountId,
    amount: u64,
    fee_type: FeeType,
) -> bool {
    &&& same_global(pre.global, post.global)
    &&& post.orchestrators@ == pre.orchestrators@
    &&& post.orders@ == pre.orders@
    &&& post.chain_min_fees@ == pre.chain_min_fees@
    &&& post.pools@ == (if has_pool(pre.pools@, token@) {
        match fee_type {
            FeeType::Base => spec_pool_sub(pre.pools@, token@, 0, amount, 0, 0),
            FeeType::Lp => spec_pool_sub(pre.pools@, token@, 0, 0, amount, 0),
            FeeType::Protocol => spec_pool_sub(pre.pools@, token@, 0, 0, 0, amount),
        }
    } else {
        pre.pools@
    })
    &&& post.ledger@ == spec_ledger_credit(pre.ledger@, caller, token, amount)
}

/// The single error `remove_bridge_liquidity` reports, or `None` when it
/// succeeds.
pub open spec fn remove_liquidity_err(
    pre: Bridge,
    caller: AccountId,
    token: AccountId,
    amount: u64,
) -> Option<BridgeError> {
    if !can_remove_liquidity(pre.orchestrators@, caller@) {
        Some(BridgeError::Unauthorized)
    } else if liquidity_of(pre.pools@, token@) < amount {
        Some(BridgeError::InsufficientVaultBalance)
    } else if bal_of(pre.ledger@, caller@, token@) + amount > u64::MAX {
        Some(BridgeError::ArithmeticOverflow)
    } else {
        None
    }
}

/// Everything a successful `remove_bridge_liquidity` changes: the token's
/// liquidity drops by exactly the amount and the caller's balance gains
/// it.
pub open spec fn remove_liquidity_ok_post(
    pre: Bridge,
    post: Bridge,
    caller: AccountId,
    token: AccountId,
    amount: u64,
) -> bool {
    &&& same_global(pre.global, post.global)
    &&& post.orchestrators@ == pre.orchestrators@
    &&& post.orders@ == pre.orders@
    &&& post.chain_min_fees@ == pre.chain_min_fees@
    &&& post.pools@ == (if has_pool(pre.pools@, token@) {
        spec_pool_sub(pre.pools@, token@, amount, 0, 0, 0)
    } else {
        pre.pools@
    })
    &&& post.ledger@ == spec_ledger_credit(pre.ledger@, caller, token, amount)
}

impl Bridge {
    /// An orchestrator holding the matching claim permission withdraws
    /// `amount` from one of the token's fee pools into its own balance.
    pub fn claim_fees(
        &mut self,
        caller: &AccountId,
        token: AccountId,
        amount: u64,
        fee_type: FeeType,
    ) -> (r: Result<(), BridgeError>)
        requires
            old(self).wf(),
        ensures
            final(self).wf(),
            r is Err ==> *final(self) == *old(self),
            (match claim_fees_err(*old(self), *caller, token, amount, fee_type) {
                Some(e) => r == Err::<(), BridgeError>(e),
                None => r is Ok && claim_fees_ok_post(
                    *old(self),
                    *final(self),
                    *caller,
                    token,
                    amount,
                    fee_type,
                ),
            }),
    {
        let permitted = match active_record(&self.orchestrators, caller) {
            Some(o) => match fee_type {
                FeeType::Base => o.claim_base_fee_permission,
                FeeType::Lp => o.claim_lp_fee_permission,
                FeeType::Protocol => o.claim_protocol_fee_permission,
            },
            None => false,
        };
        if !permitted {
            return Err(BridgeError::Unauthorized);
        }
        let pool_slot = find_pool(&self.pools, &token);
        match pool_slot {
            Some(i) => {
                proof {
                    lemma_pool_index_unique(self.pools@, token@, i as int);
                }
                let p = self.pools[i];
                let available = match fee_type {
                    FeeType::Base => p.base_fees,
                    FeeType::Lp => p.lp_fees,
                    FeeType::Protocol => p.protocol_fees,
                };
                if available < amount {
                    return Err(BridgeError::InsufficientVaultBalance);
                }
            },
            None => {
                if amount > 0 {
                    return Err(BridgeError::InsufficientVaultBalance);
                }
            },
        }
        let caller_bal = ledger_balance(&self.ledger, caller, &token);
        if caller_bal > u64::MAX - amount {
            return Err(BridgeError::ArithmeticOverflow);
        }
        let ghost pre_pools = self.pools@;
        match pool_slot {
            Some(i) => {
                let p = self.pools[i];
                let updated = match fee_type {
                    FeeType::Base => Pool {
                        token: p.token,
                        liquidity: p.liquidity,
                        base_fees: p.base_fees - amount,
                        lp_fees: p.lp_fees,
                        protocol_fees: p.protocol_fees,
                    },
                    FeeType::Lp => Pool {
                        token: p.token,
                        liquidity: p.liquidity,
                        base_fees: p.base_fees,
                        lp_fees: p.lp_fees - amount,
                        protocol_fees: p.protocol_fees,
                    },
                    FeeType::Protocol => Pool {
                        token: p.token,
                        liquidity: p.liquidity,
                        base_fees: p.base_fees,
                        lp_fees: p.lp_fees,
                        protocol_fees: p.protocol_fees - amount,
                    },
                };
                self.pools[i] = updated;
                proof {
                    match fee_type {
                        FeeType::Base => {
                            lemma_pool_sub_frame(pre_pools, token@, 0, amount, 0, 0);
                            assert(self.pools@ =~= spec_pool_sub(pre_pools, token@, 0, amount, 0, 0));
                        },
                        FeeType::Lp => {
                            lemma_pool_sub_frame(pre_pools, token@, 0, 0, amount, 0);
                            assert(self.pools@ =~= spec_pool_sub(pre_pools, token@, 0, 0, amount, 0));
                        },
                        FeeType::Protocol => {
                            lemma_pool_sub_frame(pre_pools, token@, 0, 0, 0, amount);
                            assert(self.pools@ =~= spec_pool_sub(pre_pools, token@, 0, 0, 0, amount));
                        },
                    }
                }
            },
            None => {},
        }
        match ledger_credit(&mut self.ledger, caller, &token, amount) {
            Ok(()) => {},
            Err(e) => {
                proof {
                    assert(false);
                }
                return Err(e);
            },
        }
        Ok(())
    }

    /// An orchestrator with the liquidity permission withdraws bridge
    /// liquidity of a token into its own balance.
    pub fn remove_bridge_liquidity(&mut self, caller: &AccountId, token: AccountId, amount: u64) -> (r:
        Result<(), BridgeError>)
        requires
            old(self).wf(),
        ensures
            final(self).wf(),
            r is Err ==> *final(self) == *old(self),
            (match remove_liquidity_err(*old(self), *caller, token, amount) {
                Some(e) => r == Err::<(), BridgeError>(e),
                None => r is Ok && remove_liquidity_ok_post(
                    *old(self),
                    *final(self),
                    *caller,
                    token,
                    amount,
                ),
            }),
    {
        let permitted = match active_record(&self.orchestrators, caller) {
            Some(o) => o.remove_bridge_liquidity_permission,
            None => false,
        };
        if !permitted {
            return Err(BridgeError::Unauthorized);
        }
        let pool_slot = find_pool(&self.pools, &token);
        match pool_slot {
            Some(i) => {
                proof {
                    lemma_pool_index_unique(self.pools@, token@, i as int);
                }
                if self.pools[i].liquidity < amount {
                    return Err(BridgeError::InsufficientVaultBalance);
                }
            },
            None => {
                if amount > 0 {
                    return Err(BridgeError::InsufficientVaultBalance);
                }
            },
        }
        let caller_bal = ledger_balance(&self.ledger, caller, &token);
        if caller_bal > u64::MAX - amount {
            return Err(BridgeError::ArithmeticOverflow);
        }
        let ghost pre_pools = self.pools@;
        match pool_slot {
            Some(i) => {
                let p = self.pools[i];
                self.pools[i] = Pool {
                    token: p.token,
                    liquidity: p.liquidity - amount,
                    base_fees: p.base_fees,
                    lp_fees: p.lp_fees,
                    protocol_fees: p.protocol_fees,
                };
                proof {
                    lemma_pool_sub_frame(pre_pools, token@, amount, 0, 0, 0);
                    assert(self.pools@ =~= spec_pool_sub(pre_pools, token@, amount, 0, 0, 0));
                }
            },
            None => {},
        }
        match ledger_credit(&mut self.ledger, caller, &token, amount) {
            Ok(()) => {},
            Err(e) => {
                proof {
                    assert(false);
                }
                return Err(e);
            },
        }
        Ok(())
    }

    /// The host funds an account: `amount` of `token` appears on the
    /// owner's ledger balance.  This models an inbound transfer from
    /// outside the settlement core (a deposit, or the proceeds of an
    /// off-chain swap landing on an orchestrator).
    pub fn credit_account(&mut self, owner: &AccountId, token: &AccountId, amount: u64) -> (r:
        Result<(), BridgeError>)
        requires
            old(self).wf(),
        ensures
            final(self).wf(),
            r is Err ==> *final(self) == *old(self) && r == Err::<(), BridgeError>(
                BridgeError::ArithmeticOverflow,
            ),
            r is Ok <==> bal_of(old(self).ledger@, owner@, token@) + amount <= u64::MAX,
            r is Ok ==> same_global(old(self).global, final(self).global) && final(self).orchestrators@ == old(self).orchestrators@ && final(self).orders@ == old(self).orders@
                && final(self).pools@ == old(self).pools@ && final(self).chain_min_fees@ == old(self).chain_min_fees@ && final(self).ledger@ == spec_ledger_credit(
                old(self).ledger@,
                *owner,
                *token,
                amount,
            ),
    {
        ledger_credit(&mut self.ledger, owner, token, amount)
    }

    /// Reads the ledger balance of `(owner, token)`.
    pub fn balance_of(&self, owner: &AccountId, token: &AccountId) -> (r: u64)
        requires
            self.wf(),
        ensures
            r as int == bal_of(self.ledger@, owner@, token@),
    {
        ledger_balance(&self.ledger, owner, token)
    }

    /// Reads the bridge liquidity held for a token.
    pub fn token_liquidity(&self, token: &AccountId) -> (r: u64)
        requires
            self.wf(),
        ensures
            r as int == liquidity_of(self.pools@, token@),
    {
        match find_pool(&self.pools, token) {
            Some(i) => {
                proof {
                    lemma_pool_index_unique(self.pools@, token@, i as int);
                }
                self.pools[i].liquidity
            },
            None => 0,
        }
    }

    /// Reads the claimable balance of one fee pool of a token.
    pub fn fee_pool_balance(&self, token: &AccountId, fee_type: FeeType) -> (r: u64)
        requires
            self.wf(),
        ensures
            r as int == fee_pool_of(self.pools@, token@, fee_type),
    {
        match find_pool(&self.pools, token) {
            Some(i) => {
                proof {
                    lemma_pool_index_unique(self.pools@, token@, i as int);
                }
                match fee_type {
                    FeeType::Base => self.pools[i].base_fees,
                    FeeType::Lp => self.pools[i].lp_fees,
                    FeeType::Protocol => self.pools[i].protocol_fees,
                }
            },
            None => 0,
        }
    }

    /// Reads the lifecycle state of the order with the given hash.
    pub fn order_status(&self, order_hash: &[u8; 32]) -> (r: Option<OrderStatus>)
        requires
            self.wf(),
        ensures
            has_order_hash(self.orders@, order_hash@) ==> r == Some(
                self.orders@[order_hash_index(self.orders@, order_hash@)].status,
            ),
            !has_order_hash(self.orders@, order_hash@) ==> r is None,
    {
        match find_order_by_hash(&self.orders, order_hash) {
            Some(i) => {
                proof {
                    lemma_order_hash_index_unique(self.orders@, order_hash@, i as int);
                }
                Some(self.orders[i].status)
            },
            None => None,
        }
    }
}

} // verus!
