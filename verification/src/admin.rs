//! Administrative operations: the two-step admin handover, the freeze and
//! thaw authority sets, the freeze switch, the orchestrator registry and
//! the configuration setters.
//!
//! Every operation here checks the caller's role first; administrative
//! operations stay permitted while the system is frozen, so it can be
//! reconfigured while paused.

use vstd::prelude::*;
use crate::errors::BridgeError;
use crate::fees::FeeTier;
use crate::fees::make_fee_tiers;
use crate::fees::valid_tier_config;
use crate::ids::AccountId;
use crate::ids::contains_id;
use crate::ids::find_id;
use crate::ids::id_eq;
use crate::ids::id_in;
use crate::ids::lemma_push_id;
use crate::ids::lemma_remove_id;
use crate::orch::Orchestrator;
use crate::orch::find_orch;
use crate::orch::has_orch;
use crate::orch::lemma_orch_index_unique;
use crate::orch::orch_index;
use crate::orch::tombstoned;
use crate::state::Bridge;
use crate::state::ChainMinFee;
use crate::state::chain_fee_index;
use crate::state::has_chain_fee;
use crate::state::lemma_chain_fee_index_unique;
use crate::state::same_admin_fields;
use crate::state::same_fraction;
use crate::state::same_freeze_list;
use crate::state::same_frozen;
use crate::state::same_global;
use crate::state::same_params;
use crate::state::same_records;
use crate::state::same_thaw_list;
use crate::state::same_tier_tables;

verus! {

impl Bridge {
    /// The admin nominates a successor.  Power does not move yet: the
    /// nominee must accept, so a mistyped or unreachable identity cannot
    /// take control away.
    pub fn nominate_authority(&mut self, caller: &AccountId, new_admin: AccountId) -> (r: Result<
        (),
        BridgeError,
    >)
        requires
            old(self).wf(),
        ensures
            final(self).wf(),
            !old(self).is_admin(caller@) ==> r == Err::<(), BridgeError>(BridgeError::Unauthorized)
                && *final(self) == *old(self),
            old(self).is_admin(caller@) ==> r is Ok && same_records(*old(self), *final(self))
                && final(self).global.admin@ == old(self).global.admin@
                && final(self).global.pending_admin == Some(new_admin) && same_freeze_list(
                old(self).global,
                final(self).global,
            ) && same_thaw_list(old(self).global, final(self).global) && same_frozen(
                old(self).global,
                final(self).global,
            ) && same_params(old(self).global, final(self).global) && same_fraction(
                old(self).global,
                final(self).global,
            ) && same_tier_tables(old(self).global, final(self).global),
    {
        if !id_eq(&self.global.admin, caller) {
            return Err(BridgeError::Unauthorized);
        }
        self.global.pending_admin = Some(new_admin);
        Ok(())
    }

    /// The nominated identity accepts and atomically becomes admin; the
    /// nomination is cleared.
    pub fn accept_authority(&mut self, caller: &AccountId) -> (r: Result<(), BridgeError>)
        requires
            old(self).wf(),
        ensures
            final(self).wf(),
            !(old(self).global.pending_admin matches Some(p) && p@ == caller@) ==> r == Err::<
                (),
                BridgeError,
            >(BridgeError::Unauthorized) && *final(self) == *old(self),
            (old(self).global.pending_admin matches Some(p) && p@ == caller@) ==> r is Ok
                && same_records(*old(self), *final(self)) && final(self).global.admin@ == caller@
                && final(self).global.pending_admin is None && same_freeze_list(
                old(self).global,
                final(self).global,
            ) && same_thaw_list(old(self).global, final(self).global) && same_frozen(
                old(self).global,
                final(self).global,
            ) && same_params(old(self).global, final(self).global) && same_fraction(
                old(self).global,
                final(self).global,
            ) && same_tier_tables(old(self).global, final(self).global),
    {
        match &self.global.pending_admin {
            Some(p) => {
                if !id_eq(p, caller) {
                    return Err(BridgeError::Unauthorized);
                }
            },
            None => {
                return Err(BridgeError::Unauthorized);
            },
        }
        match self.global.pending_admin {
            Some(p) => {
                self.global.admin = p;
                self.global.pending_admin = None;
                Ok(())
            },
            None => Err(BridgeError::Unauthorized),
        }
    }

    /// Admin-only: grants an identity the right to freeze the system.
    /// Adding an identity that already holds it changes nothing.
    pub fn add_freeze_authority(&mut self, caller: &AccountId, authority: AccountId) -> (r: Result<
        (),
        BridgeError,
    >)
        requires
            old(self).wf(),
        ensures
            final(self).wf(),
            !old(self).is_admin(caller@) ==> r == Err::<(), BridgeError>(BridgeError::Unauthorized)
                && *final(self) == *old(self),
            old(self).is_admin(caller@) ==> r is Ok && same_records(*old(self), *final(self))
                && same_admin_fields(old(self).global, final(self).global) && same_thaw_list(
                old(self).global,
                final(self).global,
            ) && same_frozen(old(self).global, final(self).global) && same_params(
                old(self).global,
                final(self).global,
            ) && same_fraction(old(self).global, final(self).global) && same_tier_tables(
                old(self).global,
                final(self).global,
            ) && id_in(final(self).global.freeze_authorities@, authority@) && (forall|x: Seq<u8>|
                x != authority@ ==> id_in(final(self).global.freeze_authorities@, x) == id_in(
                    old(self).global.freeze_authorities@,
                    x,
                )),
    {
        if !id_eq(&self.global.admin, caller) {
            return Err(BridgeError::Unauthorized);
        }
        if contains_id(&self.global.freeze_authorities, &authority) {
            return Ok(());
        }
        proof {
            lemma_push_id(self.global.freeze_authorities@, authority);
        }
        self.global.freeze_authorities.push(authority);
        Ok(())
    }

    /// Admin-only: withdraws an identity's right to freeze; fails when the
    /// identity does not hold it.
    pub fn remove_freeze_authority(&mut self, caller: &AccountId, authority: &AccountId) -> (r:
        Result<(), BridgeError>)
        requires
            old(self).wf(),
        ensures
            final(self).wf(),
            !old(self).is_admin(caller@) ==> r == Err::<(), BridgeError>(BridgeError::Unauthorized)
                && *final(self) == *old(self),
            old(self).is_admin(caller@) && !id_in(old(self).global.freeze_authorities@, authority@)
                ==> r == Err::<(), BridgeError>(BridgeError::NotFound) && *final(self) == *old(self),
            old(self).is_admin(caller@) && id_in(old(self).global.freeze_authorities@, authority@)
                ==> r is Ok && same_records(*old(self), *final(self)) && same_admin_fields(
                old(self).global,
                final(self).global,
            ) && same_thaw_list(old(self).global, final(self).global) && same_frozen(
                old(self).global,
                final(self).global,
            ) && same_params(old(self).global, final(self).global) && same_fraction(
                old(self).global,
                final(self).global,
            ) && same_tier_tables(old(self).global, final(self).global) && !id_in(
                final(self).global.freeze_authorities@,
                authority@,
            ) && (forall|x: Seq<u8>|
                x != authority@ ==> id_in(final(self).global.freeze_authorities@, x) == id_in(
                    old(self).global.freeze_authorities@,
                    x,
                )),
    {
        if !id_eq(&self.global.admin, caller) {
            return Err(BridgeError::Unauthorized);
        }
        match find_id(&self.global.freeze_authorities, authority) {
            Some(i) => {
                proof {
                    lemma_remove_id(self.global.freeze_authorities@, i as int);
                }
                self.global.freeze_authorities.remove(i);
                Ok(())
            },
            None => Err(BridgeError::NotFound),
        }
    }

    /// Admin-only: grants an identity the right to thaw the system.
    /// Adding an identity that already holds it changes nothing.
    pub fn add_thaw_authority(&mut self, caller: &AccountId, authority: AccountId) -> (r: Result<
        (),
        BridgeError,
    >)
        requires
            old(self).wf(),
        ensures
            final(self).wf(),
            !old(self).is_admin(caller@) ==> r == Err::<(), BridgeError>(BridgeError::Unauthorized)
                && *final(self) == *old(self),
            old(self).is_admin(caller@) ==> r is Ok && same_records(*old(self), *final(self))
                && same_admin_fields(old(self).global, final(self).global) && same_freeze_list(
                old(self).global,
                final(self).global,
            ) && same_frozen(old(self).global, final(self).global) && same_params(
                old(self).global,
                final(self).global,
            ) && same_fraction(old(self).global, final(self).global) && same_tier_tables(
                old(self).global,
                final(self).global,
            ) && id_in(final(self).global.thaw_authorities@, authority@) && (forall|x: Seq<u8>|
                x != authority@ ==> id_in(final(self).global.thaw_authorities@, x) == id_in(
                    old(self).global.thaw_authorities@,
                    x,
                )),
    {
        if !id_eq(&self.global.admin, caller) {
            return Err(BridgeError::Unauthorized);
        }
        if contains_id(&self.global.thaw_authorities, &authority) {
            return Ok(());
        }
        proof {
            lemma_push_id(self.global.thaw_authorities@, authority);
        }
        self.global.thaw_authorities.push(authority);
        Ok(())
    }

    /// Admin-only: withdraws an identity's right to thaw; fails when the
    /// identity does not hold it.
    pub fn remove_thaw_authority(&mut self, caller: &AccountId, authority: &AccountId) -> (r:
        Result<(), BridgeError>)
        requires
            old(self).wf(),
        ensures
            final(self).wf(),
            !old(self).is_admin(caller@) ==> r == Err::<(), BridgeError>(BridgeError::Unauthorized)
                && *final(self) == *old(self),
            old(self).is_admin(caller@) && !id_in(old(self).global.thaw_authorities@, authority@)
                ==> r == Err::<(), BridgeError>(BridgeError::NotFound) && *final(self) == *old(self),
            old(self).is_admin(caller@) && id_in(old(self).global.thaw_authorities@, authority@)
                ==> r is Ok && same_records(*old(self), *final(self)) && same_admin_fields(
                old(self).global,
                final(self).global,
            ) && same_freeze_list(old(self).global, final(self).global) && same_frozen(
                old(self).global,
                final(self).global,
            ) && same_params(old(self).global, final(self).global) && same_fraction(
                old(self).global,
                final(self).global,
            ) && same_tier_tables(old(self).global, final(self).global) && !id_in(
                final(self).global.thaw_authorities@,
                authority@,
            ) && (forall|x: Seq<u8>|
                x != authority@ ==> id_in(final(self).global.thaw_authorities@, x) == id_in(
                    old(self).global.thaw_authorities@,
                    x,
                )),
    {
        if !id_eq(&self.global.admin, caller) {
            return Err(BridgeError::Unauthorized);
        }
        match find_id(&self.global.thaw_authorities, authority) {
            Some(i) => {
                proof {
                    lemma_remove_id(self.global.thaw_authorities@, i as int);
                }
                self.global.thaw_authorities.remove(i);
                Ok(())
            },
            None => Err(BridgeError::NotFound),
        }
    }

    /// A freeze authority pauses order creation and filling.  Freezing an
    /// already frozen system is permitted and changes nothing further.
    pub fn freeze_global_state(&mut self, caller: &AccountId) -> (r: Result<(), BridgeError>)
        requires
            old(self).wf(),
        ensures
            final(self).wf(),
            !id_in(old(self).global.freeze_authorities@, caller@) ==> r == Err::<(), BridgeError>(
                BridgeError::Unauthorized,
            ) && *final(self) == *old(self),
            id_in(old(self).global.freeze_authorities@, caller@) ==> r is Ok && same_records(
                *old(self),
                *final(self),
            ) && final(self).global.frozen && same_admin_fields(old(self).global, final(self).global)
                && same_freeze_list(old(self).global, final(self).global) && same_thaw_list(
                old(self).global,
                final(self).global,
            ) && same_params(old(self).global, final(self).global) && same_fraction(
                old(self).global,
                final(self).global,
            ) && same_tier_tables(old(self).global, final(self).global),
    {
        if !contains_id(&self.global.freeze_authorities, caller) {
            return Err(BridgeError::Unauthorized);
        }
        self.global.frozen = true;
        Ok(())
    }

    /// A thaw authority resumes order creation and filling.
    pub fn thaw_global_state(&mut self, caller: &AccountId) -> (r: Result<(), BridgeError>)
        requires
            old(self).wf(),
        ensures
            final(self).wf(),
            !id_in(old(self).global.thaw_authorities@, caller@) ==> r == Err::<(), BridgeError>(
                BridgeError::Unauthorized,
            ) && *final(self) == *old(self),
            id_in(old(self).global.thaw_authorities@, caller@) ==> r is Ok && same_records(
                *old(self),
                *final(self),
            ) && !final(self).global.frozen && same_admin_fields(
                old(self).global,
                final(self).global,
            ) && same_freeze_list(old(self).global, final(self).global) && same_thaw_list(
                old(self).global,
                final(self).global,
            ) && same_params(old(self).global, final(self).global) && same_fraction(
                old(self).global,
                final(self).global,
            ) && same_tier_tables(old(self).global, final(self).global),
    {
        if !contains_id(&self.global.thaw_authorities, caller) {
            return Err(BridgeError::Unauthorized);
        }
        self.global.frozen = false;
        Ok(())
    }

    /// Admin-only: creates or reactivates an orchestrator record, setting
    /// all six capability flags explicitly (no implicit default-allow).
    pub fn add_orchestrator(
        &mut self,
        caller: &AccountId,
        address: AccountId,
        fill_order_permission: bool,
        revert_order_permission: bool,
        remove_bridge_liquidity_permission: bool,
        claim_base_fee_permission: bool,
        claim_lp_fee_permission: bool,
        claim_protocol_fee_permission: bool,
    ) -> (r: Result<(), BridgeError>)
        requires
            old(self).wf(),
        ensures
            final(self).wf(),
            !old(self).is_admin(caller@) ==> r == Err::<(), BridgeError>(BridgeError::Unauthorized)
                && *final(self) == *old(self),
            old(self).is_admin(caller@) ==> r is Ok && same_global(
                old(self).global,
                final(self).global,
            ) && final(self).orders@ == old(self).orders@ && final(self).pools@ == old(self).pools@
                && final(self).ledger@ == old(self).ledger@ && final(self).chain_min_fees@ == old(self).chain_min_fees@ && ({
                let rec = (Orchestrator {
                    address,
                    fill_order_permission,
                    revert_order_permission,
                    remove_bridge_liquidity_permission,
                    claim_base_fee_permission,
                    claim_lp_fee_permission,
                    claim_protocol_fee_permission,
                    removed: false,
                });
                if has_orch(old(self).orchestrators@, address@) {
                    final(self).orchestrators@ == old(self).orchestrators@.update(
                        orch_index(old(self).orchestrators@, address@),
                        rec,
                    )
                } else {
                    final(self).orchestrators@ == old(self).orchestrators@.push(rec)
                }
            }),
    {
        if !id_eq(&self.global.admin, caller) {
            return Err(BridgeError::Unauthorized);
        }
        let rec = Orchestrator {
            address,
            fill_order_permission,
            revert_order_permission,
            remove_bridge_liquidity_permission,
            claim_base_fee_permission,
            claim_lp_fee_permission,
            claim_protocol_fee_permission,
            removed: false,
        };
        match find_orch(&self.orchestrators, &address) {
            Some(i) => {
                proof {
                    lemma_orch_index_unique(self.orchestrators@, address@, i as int);
                    assert(self.orchestrators@[i as int].address@ == address@);
                }
                self.orchestrators[i] = rec;
                proof {
                    assert forall|a: int, b: int|
                        0 <= a < b < self.orchestrators@.len() implies self.orchestrators@[a].address@
                        != self.orchestrators@[b].address@ by {
                        assert(old(self).orchestrators@[a].address@ != old(self).orchestrators@[b].address@);
                    }
                }
                Ok(())
            },
            None => {
                self.orchestrators.push(rec);
                proof {
                    assert forall|a: int, b: int|
                        0 <= a < b < self.orchestrators@.len() implies self.orchestrators@[a].address@
                        != self.orchestrators@[b].address@ by {
                        if b < old(self).orchestrators@.len() {
                            assert(old(self).orchestrators@[a].address@ != old(self).orchestrators@[b].address@);
                        } else {
                            if self.orchestrators@[a].address@ == address@ {
                                assert(has_orch(old(self).orchestrators@, address@));
                            }
                        }
                    }
                }
                Ok(())
            },
        }
    }

    /// Admin-only: tombstones an orchestrator record.  The record stays
    /// addressable for audits, but every permission check fails from now
    /// on.  Fails when no record exists for the identity.
    pub fn remove_orchestrator(&mut self, caller: &AccountId, address: &AccountId) -> (r: Result<
        (),
        BridgeError,
    >)
        requires
            old(self).wf(),
        ensures
            final(self).wf(),
            !old(self).is_admin(caller@) ==> r == Err::<(), BridgeError>(BridgeError::Unauthorized)
                && *final(self) == *old(self),
            old(self).is_admin(caller@) && !has_orch(old(self).orchestrators@, address@) ==> r
                == Err::<(), BridgeError>(BridgeError::NotFound) && *final(self) == *old(self),
            old(self).is_admin(caller@) && has_orch(old(self).orchestrators@, address@) ==> r is Ok
                && same_global(old(self).global, final(self).global) && final(self).orders@ == old(self).orders@ && final(self).pools@ == old(self).pools@ && final(self).ledger@ == old(self).ledger@ && final(self).chain_min_fees@ == old(self).chain_min_fees@ && final(self).orchestrators@ == old(self).orchestrators@.update(
                orch_index(old(self).orchestrators@, address@),
                tombstoned(old(self).orchestrators@[orch_index(old(self).orchestrators@, address@)]),
            ),
    {
        if !id_eq(&self.global.admin, caller) {
            return Err(BridgeError::Unauthorized);
        }
        match find_orch(&self.orchestrators, address) {
            Some(i) => {
                proof {
                    lemma_orch_index_unique(self.orchestrators@, address@, i as int);
                }
                let rec0 = self.orchestrators[i];
                self.orchestrators[i] = Orchestrator {
                    address: rec0.address,
                    fill_order_permission: rec0.fill_order_permission,
                    revert_order_permission: rec0.revert_order_permission,
                    remove_bridge_liquidity_permission: rec0.remove_bridge_liquidity_permission,
                    claim_base_fee_permission: rec0.claim_base_fee_permission,
                    claim_lp_fee_permission: rec0.claim_lp_fee_permission,
                    claim_protocol_fee_permission: rec0.claim_protocol_fee_permission,
                    removed: true,
                };
                proof {
                    assert forall|a: int, b: int|
                        0 <= a < b < self.orchestrators@.len() implies self.orchestrators@[a].address@
                        != self.orchestrators@[b].address@ by {
                        assert(old(self).orchestrators@[a].address@ != old(self).orchestrators@[b].address@);
                    }
                }
                Ok(())
            },
            None => Err(BridgeError::NotFound),
        }
    }

    /// Admin-only: replaces the fee schedule.  Rejects parallel arrays of
    /// unequal length and thresholds that are not strictly ascending.
    pub fn set_fee_tiers(
        &mut self,
        caller: &AccountId,
        threshold_amounts: &Vec<u64>,
        bps_fees: &Vec<u64>,
    ) -> (r: Result<(), BridgeError>)
        requires
            old(self).wf(),
        ensures
            final(self).wf(),
            !old(self).is_admin(caller@) ==> r == Err::<(), BridgeError>(BridgeError::Unauthorized)
                && *final(self) == *old(self),
            old(self).is_admin(caller@) && !valid_tier_config(threshold_amounts@, bps_fees@) ==> r
                == Err::<(), BridgeError>(BridgeError::FeeTierConfigInvalid) && *final(self)
                == *old(self),
            old(self).is_admin(caller@) && valid_tier_config(threshold_amounts@, bps_fees@) ==> r
                is Ok && same_records(*old(self), *final(self)) && same_admin_fields(
                old(self).global,
                final(self).global,
            ) && same_freeze_list(old(self).global, final(self).global) && same_thaw_list(
                old(self).global,
                final(self).global,
            ) && same_frozen(old(self).global, final(self).global) && same_params(
                old(self).global,
                final(self).global,
            ) && same_fraction(old(self).global, final(self).global) && final(self).global.insurance_fee_tiers@ == old(self).global.insurance_fee_tiers@ && final(self).global.fee_tiers@.len() == threshold_amounts@.len() && (forall|i: int|
                0 <= i < threshold_amounts@.len() ==> final(self).global.fee_tiers@[i]
                    == (FeeTier {
                    threshold_amount: threshold_amounts@[i],
                    bps_fee: bps_fees@[i],
                })),
    {
        if !id_eq(&self.global.admin, caller) {
            return Err(BridgeError::Unauthorized);
        }
        match make_fee_tiers(threshold_amounts, bps_fees) {
            Ok(t) => {
                self.global.fee_tiers = t;
                Ok(())
            },
            Err(e) => Err(e),
        }
    }

    /// Admin-only: replaces the insurance premium schedule, with the same
    /// shape checks as the fee schedule.
    pub fn set_insurance_fee_tiers(
        &mut self,
        caller: &AccountId,
        threshold_amounts: &Vec<u64>,
        insurance_fees: &Vec<u64>,
    ) -> (r: Result<(), BridgeError>)
        requires
            old(self).wf(),
        ensures
            final(self).wf(),
            !old(self).is_admin(caller@) ==> r == Err::<(), BridgeError>(BridgeError::Unauthorized)
                && *final(self) == *old(self),
            old(self).is_admin(caller@) && !valid_tier_config(threshold_amounts@, insurance_fees@)
                ==> r == Err::<(), BridgeError>(BridgeError::FeeTierConfigInvalid) && *final(self)
                == *old(self),
            old(self).is_admin(caller@) && valid_tier_config(threshold_amounts@, insurance_fees@)
                ==> r is Ok && same_records(*old(self), *final(self)) && same_admin_fields(
                old(self).global,
                final(self).global,
            ) && same_freeze_list(old(self).global, final(self).global) && same_thaw_list(
                old(self).global,
                final(self).global,
            ) && same_frozen(old(self).global, final(self).global) && same_params(
                old(self).global,
                final(self).global,
            ) && same_fraction(old(self).global, final(self).global) && final(self).global.fee_tiers@
                == old(self).global.fee_tiers@ && final(self).global.insurance_fee_tiers@.len()
                == threshold_amounts@.len() && (forall|i: int|
                0 <= i < threshold_amounts@.len() ==> final(self).global.insurance_fee_tiers@[i]
                    == (FeeTier {
                    threshold_amount: threshold_amounts@[i],
                    bps_fee: insurance_fees@[i],
                })),
    {
        if !id_eq(&self.global.admin, caller) {
            return Err(BridgeError::Unauthorized);
        }
        match make_fee_tiers(threshold_amounts, insurance_fees) {
            Ok(t) => {
                self.global.insurance_fee_tiers = t;
                Ok(())
            },
            Err(e) => Err(e),
        }
    }

    /// Admin-only: sets the fraction of each assessed fee split out as
    /// protocol revenue.  A zero denominator is rejected.
    pub fn set_protocol_fee_fraction(
        &mut self,
        caller: &AccountId,
        protocol_fee_numerator: u64,
        protocol_fee_denominator: u64,
    ) -> (r: Result<(), BridgeError>)
        requires
            old(self).wf(),
        ensures
            final(self).wf(),
            !old(self).is_admin(caller@) ==> r == Err::<(), BridgeError>(BridgeError::Unauthorized)
                && *final(self) == *old(self),
            old(self).is_admin(caller@) && protocol_fee_denominator == 0 ==> r == Err::<
                (),
                BridgeError,
            >(BridgeError::InvalidAmount) && *final(self) == *old(self),
            old(self).is_admin(caller@) && protocol_fee_denominator > 0 ==> r is Ok
                && same_records(*old(self), *final(self)) && same_admin_fields(
                old(self).global,
                final(self).global,
            ) && same_freeze_list(old(self).global, final(self).global) && same_thaw_list(
                old(self).global,
                final(self).global,
            ) && same_frozen(old(self).global, final(self).global) && same_params(
                old(self).global,
                final(self).global,
            ) && same_tier_tables(old(self).global, final(self).global) && final(self).global.protocol_fee_numerator == protocol_fee_numerator && final(self).global.protocol_fee_denominator == protocol_fee_denominator,
    {
        if !id_eq(&self.global.admin, caller) {
            return Err(BridgeError::Unauthorized);
        }
        if protocol_fee_denominator == 0 {
            return Err(BridgeError::InvalidAmount);
        }
        self.global.protocol_fee_numerator = protocol_fee_numerator;
        self.global.protocol_fee_denominator = protocol_fee_denominator;
        Ok(())
    }

    /// Admin-only: partial update of the tunable parameters; an omitted
    /// parameter keeps its value.
    pub fn update_global_state_params(
        &mut self,
        caller: &AccountId,
        rebalance_threshold: Option<u16>,
        cross_chain_fee_bps: Option<u16>,
        max_order_amount: Option<u64>,
    ) -> (r: Result<(), BridgeError>)
        requires
            old(self).wf(),
        ensures
            final(self).wf(),
            !old(self).is_admin(caller@) ==> r == Err::<(), BridgeError>(BridgeError::Unauthorized)
                && *final(self) == *old(self),
            old(self).is_admin(caller@) ==> r is Ok && same_records(*old(self), *final(self))
                && same_admin_fields(old(self).global, final(self).global) && same_freeze_list(
                old(self).global,
                final(self).global,
            ) && same_thaw_list(old(self).global, final(self).global) && same_frozen(
                old(self).global,
                final(self).global,
            ) && same_fraction(old(self).global, final(self).global) && same_tier_tables(
                old(self).global,
                final(self).global,
            ) && final(self).global.rebalance_threshold == (match rebalance_threshold {
                Some(v) => v,
                None => old(self).global.rebalance_threshold,
            }) && final(self).global.cross_chain_fee_bps == (match cross_chain_fee_bps {
                Some(v) => v,
                None => old(self).global.cross_chain_fee_bps,
            }) && final(self).global.max_order_amount == (match max_order_amount {
                Some(v) => v,
                None => old(self).global.max_order_amount,
            }),
    {
        if !id_eq(&self.global.admin, caller) {
            return Err(BridgeError::Unauthorized);
        }
        match rebalance_threshold {
            Some(v) => {
                self.global.rebalance_threshold = v;
            },
            None => {},
        }
        match cross_chain_fee_bps {
            Some(v) => {
                self.global.cross_chain_fee_bps = v;
            },
            None => {},
        }
        match max_order_amount {
            Some(v) => {
                self.global.max_order_amount = v;
            },
            None => {},
        }
        Ok(())
    }

    /// Admin-only: records (or replaces) a per-destination-chain floor fee
    /// used to reject underpriced cross-chain orders.
    pub fn set_target_chain_min_fee(
        &mut self,
        caller: &AccountId,
        dest_chain_id: u32,
        min_fee: u64,
    ) -> (r: Result<(), BridgeError>)
        requires
            old(self).wf(),
        ensures
            final(self).wf(),
            !old(self).is_admin(caller@) ==> r == Err::<(), BridgeError>(BridgeError::Unauthorized)
                && *final(self) == *old(self),
            old(self).is_admin(caller@) ==> r is Ok && same_global(
                old(self).global,
                final(self).global,
            ) && final(self).orchestrators@ == old(self).orchestrators@ && final(self).orders@
                == old(self).orders@ && final(self).pools@ == old(self).pools@ && final(self).ledger@
                == old(self).ledger@ && (if has_chain_fee(old(self).chain_min_fees@, dest_chain_id) {
                final(self).chain_min_fees@ == old(self).chain_min_fees@.update(
                    chain_fee_index(old(self).chain_min_fees@, dest_chain_id),
                    (ChainMinFee { dest_chain_id, min_fee }),
                )
            } else {
                final(self).chain_min_fees@ == old(self).chain_min_fees@.push(
                    (ChainMinFee { dest_chain_id, min_fee }),
                )
            }),
    {
        if !id_eq(&self.global.admin, caller) {
            return Err(BridgeError::Unauthorized);
        }
        let mut i: usize = 0;
        while i < self.chain_min_fees.len()
            invariant
                *self == *old(self),
                old(self).wf(),
                old(self).is_admin(caller@),
                0 <= i <= self.chain_min_fees@.len(),
                forall|j: int| 0 <= j < i ==> self.chain_min_fees@[j].dest_chain_id != dest_chain_id,
        decreases self.chain_min_fees@.len() - i,
        {
            if self.chain_min_fees[i].dest_chain_id == dest_chain_id {
                proof {
                    lemma_chain_fee_index_unique(self.chain_min_fees@, dest_chain_id, i as int);
                }
                let rec = ChainMinFee { dest_chain_id, min_fee };
                let ghost pre = self.chain_min_fees@;
                self.chain_min_fees[i] = rec;
                proof {
                    let post = self.chain_min_fees@;
                    assert(post == pre.update(i as int, rec));
                    assert(pre[i as int].dest_chain_id == dest_chain_id);
                    assert forall|a: int, b: int|
                        0 <= a < b < post.len() implies post[a].dest_chain_id
                        != post[b].dest_chain_id by {
                        assert(pre[a].dest_chain_id != pre[b].dest_chain_id);
                        if a == i as int {
                            assert(post[a] == rec);
                        } else {
                            assert(post[a] == pre[a]);
                        }
                        if b == i as int {
                            assert(post[b] == rec);
                        } else {
                            assert(post[b] == pre[b]);
                        }
                    }
                }
                return Ok(());
            }
            i += 1;
        }
        proof {
            assert(!has_chain_fee(self.chain_min_fees@, dest_chain_id));
        }
        self.chain_min_fees.push(ChainMinFee { dest_chain_id, min_fee });
        proof {
            assert forall|a: int, b: int|
                0 <= a < b < self.chain_min_fees@.len() implies self.chain_min_fees@[a].dest_chain_id
                != self.chain_min_fees@[b].dest_chain_id by {
                if b < old(self).chain_min_fees@.len() {
                    assert(old(self).chain_min_fees@[a].dest_chain_id != old(self).chain_min_fees@[b].dest_chain_id);
                } else {
                    if self.chain_min_fees@[a].dest_chain_id == dest_chain_id {
                        assert(has_chain_fee(old(self).chain_min_fees@, dest_chain_id));
                    }
                }
            }
        }
        Ok(())
    }
}

} // verus!
