//! The process-wide configuration record and the aggregate bridge state.
//!
//! `GlobalState` is created once by `initialize` and mutated only by the
//! admin or by the freeze/thaw authorities.  `Bridge` gathers every
//! addressable unit of the settlement core: the configuration, the
//! orchestrator registry, the order book, the vault pools and the token
//! ledger the transfer collaborator acts on.

use vstd::prelude::*;
use crate::fees::FeeTier;
use crate::fees::tiers_ascending;
use crate::ids::AccountId;
use crate::ids::ids_unique;
use crate::orch::Orchestrator;
use crate::orch::orchs_unique;
use crate::order::Order;
use crate::order::orders_wf;
use crate::vault::AccountEntry;
use crate::vault::Pool;
use crate::vault::entries_unique;
use crate::vault::pools_unique;

verus! {

/// A per-destination-chain floor fee, recorded for off-chain validation of
/// underpriced cross-chain orders.
#[derive(Clone, Copy, Debug, PartialEq, Eq, Structural)]
pub struct ChainMinFee {
    pub dest_chain_id: u32,
    pub min_fee: u64,
}

/// One floor fee per destination chain.
pub open spec fn chain_fees_unique(s: Seq<ChainMinFee>) -> bool {
    forall|i: int, j: int| 0 <= i < j < s.len() ==> s[i].dest_chain_id != s[j].dest_chain_id
}

/// The index of a destination chain's floor-fee record; meaningful only
/// under existence and [`chain_fees_unique`].
pub open spec fn chain_fee_index(s: Seq<ChainMinFee>, chain: u32) -> int {
    choose|i: int| 0 <= i < s.len() && s[i].dest_chain_id == chain
}

/// Whether a floor fee is recorded for the destination chain.
pub open spec fn has_chain_fee(s: Seq<ChainMinFee>, chain: u32) -> bool {
    exists|i: int| 0 <= i < s.len() && s[i].dest_chain_id == chain
}

/// Under unique chain ids, any index whose record carries the chain id is
/// the one it resolves to.
pub proof fn lemma_chain_fee_index_unique(s: Seq<ChainMinFee>, chain: u32, i: int)
    requires
        chain_fees_unique(s),
        0 <= i < s.len(),
        s[i].dest_chain_id == chain,
    ensures
        has_chain_fee(s, chain),
        chain_fee_index(s, chain) == i,
{
    assert(has_chain_fee(s, chain));
    let j = chain_fee_index(s, chain);
    assert(0 <= j < s.len() && s[j].dest_chain_id == chain);
    if j < i {
        assert(s[j].dest_chain_id != s[i].dest_chain_id);
    } else if i < j {
        assert(s[i].dest_chain_id != s[j].dest_chain_id);
    }
}

/// The singleton global configuration.
pub struct GlobalState {
    /// The identity with exclusive right to reconfigure and to nominate a
    /// successor.
    pub admin: AccountId,
    /// A nominated successor awaiting acceptance (two-step handover).
    pub pending_admin: Option<AccountId>,
    /// Identities allowed to pause order processing.
    pub freeze_authorities: Vec<AccountId>,
    /// Identities allowed to resume order processing.
    pub thaw_authorities: Vec<AccountId>,
    /// While set, order creation and filling are rejected.
    pub frozen: bool,
    pub rebalance_threshold: u16,
    pub cross_chain_fee_bps: u16,
    /// Upper bound an order's amount may not exceed.
    pub max_order_amount: u64,
    /// Fraction of each assessed fee split out as protocol revenue.
    pub protocol_fee_numerator: u64,
    /// Never zero.
    pub protocol_fee_denominator: u64,
    /// The fee schedule, ascending by threshold.
    pub fee_tiers: Vec<FeeTier>,
    /// The insurance premium schedule, same shape invariant.
    pub insurance_fee_tiers: Vec<FeeTier>,
}

/// The aggregate state of the settlement core.
pub struct Bridge {
    pub global: GlobalState,
    /// One permission record per registered relayer identity.
    pub orchestrators: Vec<Orchestrator>,
    /// Every order ever created; records are never destroyed.
    pub orders: Vec<Order>,
    /// Per-token vault accounting.
    pub pools: Vec<Pool>,
    /// The balances the transfer collaborator moves.
    pub ledger: Vec<AccountEntry>,
    /// Per-destination-chain floor fees.
    pub chain_min_fees: Vec<ChainMinFee>,
}

impl Bridge {
    /// Well-formedness: every structural invariant the operations
    /// establish and preserve.
    pub open spec fn wf(self) -> bool {
        &&& self.global.protocol_fee_denominator > 0
        &&& tiers_ascending(self.global.fee_tiers@)
        &&& tiers_ascending(self.global.insurance_fee_tiers@)
        &&& ids_unique(self.global.freeze_authorities@)
        &&& ids_unique(self.global.thaw_authorities@)
        &&& orchs_unique(self.orchestrators@)
        &&& orders_wf(self.orders@)
        &&& pools_unique(self.pools@)
        &&& entries_unique(self.ledger@)
        &&& chain_fees_unique(self.chain_min_fees@)
    }

    /// Creates the global state, called once by the deployer.  The deployer
    /// becomes admin; processing starts unfrozen, with empty registries,
    /// an empty fee schedule, no cap on order amounts and a zero protocol
    /// fee fraction.
    pub fn initialize(admin: AccountId) -> (b: Bridge)
        ensures
            b.wf(),
            b.global.admin@ == admin@,
            b.global.pending_admin is None,
            !b.global.frozen,
            b.global.freeze_authorities@.len() == 0,
            b.global.thaw_authorities@.len() == 0,
            b.global.rebalance_threshold == 0,
            b.global.cross_chain_fee_bps == 0,
            b.global.max_order_amount == u64::MAX,
            b.global.protocol_fee_numerator == 0,
            b.global.protocol_fee_denominator == 1,
            b.global.fee_tiers@.len() == 0,
            b.global.insurance_fee_tiers@.len() == 0,
            b.orchestrators@.len() == 0,
            b.orders@.len() == 0,
            b.pools@.len() == 0,
            b.ledger@.len() == 0,
            b.chain_min_fees@.len() == 0,
    {
        Bridge {
            global: GlobalState {
                admin,
                pending_admin: None,
                freeze_authorities: Vec::new(),
                thaw_authorities: Vec::new(),
                frozen: false,
                rebalance_threshold: 0,
                cross_chain_fee_bps: 0,
                max_order_amount: u64::MAX,
                protocol_fee_numerator: 0,
                protocol_fee_denominator: 1,
                fee_tiers: Vec::new(),
                insurance_fee_tiers: Vec::new(),
            },
            orchestrators: Vec::new(),
            orders: Vec::new(),
            pools: Vec::new(),
            ledger: Vec::new(),
            chain_min_fees: Vec::new(),
        }
    }

    /// Whether `who` is the current admin.
    pub open spec fn is_admin(self, who: Seq<u8>) -> bool {
        self.global.admin@ == who
    }
}

/// The admin identity and the pending nomination are unchanged.
pub open spec fn same_admin_fields(a: GlobalState, b: GlobalState) -> bool {
    b.admin@ == a.admin@ && b.pending_admin == a.pending_admin
}

/// The freeze authority list is unchanged.
pub open spec fn same_freeze_list(a: GlobalState, b: GlobalState) -> bool {
    b.freeze_authorities@ == a.freeze_authorities@
}

/// The thaw authority list is unchanged.
pub open spec fn same_thaw_list(a: GlobalState, b: GlobalState) -> bool {
    b.thaw_authorities@ == a.thaw_authorities@
}

/// The freeze switch is unchanged.
pub open spec fn same_frozen(a: GlobalState, b: GlobalState) -> bool {
    b.frozen == a.frozen
}

/// The tunable numeric parameters are unchanged.
pub open spec fn same_params(a: GlobalState, b: GlobalState) -> bool {
    b.rebalance_threshold == a.rebalance_threshold && b.cross_chain_fee_bps
        == a.cross_chain_fee_bps && b.max_order_amount == a.max_order_amount
}

/// The protocol fee fraction is unchanged.
pub open spec fn same_fraction(a: GlobalState, b: GlobalState) -> bool {
    b.protocol_fee_numerator == a.protocol_fee_numerator && b.protocol_fee_denominator
        == a.protocol_fee_denominator
}

/// Both tier tables are unchanged.
pub open spec fn same_tier_tables(a: GlobalState, b: GlobalState) -> bool {
    b.fee_tiers@ == a.fee_tiers@ && b.insurance_fee_tiers@ == a.insurance_fee_tiers@
}

/// The whole global configuration is unchanged.
pub open spec fn same_global(a: GlobalState, b: GlobalState) -> bool {
    &&& same_admin_fields(a, b)
    &&& same_freeze_list(a, b)
    &&& same_thaw_list(a, b)
    &&& same_frozen(a, b)
    &&& same_params(a, b)
    &&& same_fraction(a, b)
    &&& same_tier_tables(a, b)
}

/// Every addressable unit outside the global configuration is unchanged.
pub open spec fn same_records(a: Bridge, b: Bridge) -> bool {
    &&& b.orchestrators@ == a.orchestrators@
    &&& b.orders@ == a.orders@
    &&& b.pools@ == a.pools@
    &&& b.ledger@ == a.ledger@
    &&& b.chain_min_fees@ == a.chain_min_fees@
}

} // verus!
