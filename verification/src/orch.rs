//! Orchestrator permission records.
//!
//! One record exists per authorized relayer identity.  Removal sets a
//! tombstone flag instead of deleting the record, so historical claims can
//! still resolve the identity; every permission check therefore also checks
//! `removed == false`.

use vstd::prelude::*;
use crate::ids::AccountId;

verus! {

/// A relayer identity with six independent capability flags and a removal
/// tombstone.
#[derive(Clone, Copy, Debug)]
pub struct Orchestrator {
    pub address: AccountId,
    pub fill_order_permission: bool,
    pub revert_order_permission: bool,
    pub remove_bridge_liquidity_permission: bool,
    pub claim_base_fee_permission: bool,
    pub claim_lp_fee_permission: bool,
    pub claim_protocol_fee_permission: bool,
    pub removed: bool,
}

/// Whether a record for the identity exists (removed or not).
pub open spec fn has_orch(s: Seq<Orchestrator>, addr: Seq<u8>) -> bool {
    exists|i: int| 0 <= i < s.len() && s[i].address@ == addr
}

/// The index of the identity's record; meaningful only under [`has_orch`]
/// and [`orchs_unique`].
pub open spec fn orch_index(s: Seq<Orchestrator>, addr: Seq<u8>) -> int {
    choose|i: int| 0 <= i < s.len() && s[i].address@ == addr
}

/// One record per identity.
pub open spec fn orchs_unique(s: Seq<Orchestrator>) -> bool {
    forall|i: int, j: int| 0 <= i < j < s.len() ==> s[i].address@ != s[j].address@
}

/// The record with its tombstone flag set: what removal leaves behind.
pub open spec fn tombstoned(o: Orchestrator) -> Orchestrator {
    Orchestrator {
        address: o.address,
        fill_order_permission: o.fill_order_permission,
        revert_order_permission: o.revert_order_permission,
        remove_bridge_liquidity_permission: o.remove_bridge_liquidity_permission,
        claim_base_fee_permission: o.claim_base_fee_permission,
        claim_lp_fee_permission: o.claim_lp_fee_permission,
        claim_protocol_fee_permission: o.claim_protocol_fee_permission,
        removed: true,
    }
}

/// The record of an identity that has one and has not been removed.
pub open spec fn active_orch(s: Seq<Orchestrator>, addr: Seq<u8>) -> Option<Orchestrator> {
    if has_orch(s, addr) && !s[orch_index(s, addr)].removed {
        Some(s[orch_index(s, addr)])
    } else {
        None
    }
}

/// Whether the identity may authorize fills: an active record with the
/// fill flag.
pub open spec fn can_fill_order(s: Seq<Orchestrator>, addr: Seq<u8>) -> bool {
    active_orch(s, addr) matches Some(o) && o.fill_order_permission
}

/// Whether the identity may revert orders.
pub open spec fn can_revert_order(s: Seq<Orchestrator>, addr: Seq<u8>) -> bool {
    active_orch(s, addr) matches Some(o) && o.revert_order_permission
}

/// Whether the identity may withdraw bridge liquidity.
pub open spec fn can_remove_liquidity(s: Seq<Orchestrator>, addr: Seq<u8>) -> bool {
    active_orch(s, addr) matches Some(o) && o.remove_bridge_liquidity_permission
}

/// Whether the identity may claim from the given fee pool.
pub open spec fn can_claim(s: Seq<Orchestrator>, addr: Seq<u8>, ft: crate::vault::FeeType) -> bool {
    active_orch(s, addr) matches Some(o) && (match ft {
        crate::vault::FeeType::Base => o.claim_base_fee_permission,
        crate::vault::FeeType::Lp => o.claim_lp_fee_permission,
        crate::vault::FeeType::Protocol => o.claim_protocol_fee_permission,
    })
}

/// The record the index resolves to carries the identity.
pub proof fn lemma_orch_index(s: Seq<Orchestrator>, addr: Seq<u8>)
    requires
        has_orch(s, addr),
    ensures
        0 <= orch_index(s, addr) < s.len(),
        s[orch_index(s, addr)].address@ == addr,
{
    let i = choose|i: int| 0 <= i < s.len() && s[i].address@ == addr;
    assert(0 <= i < s.len() && s[i].address@ == addr);
}

/// Under unique identities, any index whose record carries the identity is
/// the one it resolves to.
pub proof fn lemma_orch_index_unique(s: Seq<Orchestrator>, addr: Seq<u8>, i: int)
    requires
        orchs_unique(s),
        0 <= i < s.len(),
        s[i].address@ == addr,
    ensures
        has_orch(s, addr),
        orch_index(s, addr) == i,
{
    assert(has_orch(s, addr));
    lemma_orch_index(s, addr);
    let j = orch_index(s, addr);
    if j < i {
        assert(s[j].address@ != s[i].address@);
    } else if i < j {
        assert(s[i].address@ != s[j].address@);
    }
}

/// Reads the active (non-tombstoned) record of an identity.
pub fn active_record(s: &Vec<Orchestrator>, addr: &AccountId) -> (r: Option<Orchestrator>)
    requires
        orchs_unique(s@),
    ensures
        r == active_orch(s@, addr@),
{
    match find_orch(s, addr) {
        Some(i) => {
            proof {
                lemma_orch_index_unique(s@, addr@, i as int);
            }
            let o = s[i];
            if o.removed {
                None
            } else {
                Some(o)
            }
        },
        None => None,
    }
}

/// Finds the record of an identity, if one exists.
pub fn find_orch(s: &Vec<Orchestrator>, addr: &AccountId) -> (r: Option<usize>)
    ensures
        match r {
            Some(i) => i < s@.len() && s@[i as int].address@ == addr@,
            None => !has_orch(s@, addr@),
        },
{
    let mut i: usize = 0;
    while i < s.len()
        invariant
            0 <= i <= s@.len(),
            forall|j: int| 0 <= j < i ==> s@[j].address@ != addr@,
        decreases s@.len() - i,
    {
        if crate::ids::id_eq(&s[i].address, addr) {
            return Some(i);
        }
        i += 1;
    }
    None
}

} // verus!
