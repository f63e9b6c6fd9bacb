//! Order records and their lifecycle states.
//!
//! An order is created once, then terminally moved to `Filled` (through the
//! two-phase fill protocol) or `Reverted`, and never destroyed.  It is
//! addressed both by its caller-supplied 32-byte hash and by the composite
//! key `(trader, seed)`; both must be unique among all records.

use vstd::prelude::*;
use crate::ids::AccountId;

verus! {

/// The lifecycle state of an order.  `Filled` and `Reverted` are terminal.
#[derive(Clone, Copy, Debug, PartialEq, Eq, Structural)]
pub enum OrderStatus {
    Created,
    Filled,
    Reverted,
}

/// What the first fill phase records: who authorized the fill, the payout
/// balance observed before the off-chain swap, and the parsed minimum
/// payout the balance delta must reach.
#[derive(Clone, Copy, Debug)]
pub struct FillSnapshot {
    pub orchestrator: AccountId,
    pub prev_balance: u64,
    pub min_amount_out: u64,
}

/// One bridging request.
pub struct Order {
    /// Caller-supplied 32-byte identifier; unique among all orders.
    pub order_hash: [u8; 32],
    /// Caller-supplied value that, with the trader, addresses the record;
    /// `(trader, seed)` is unique among all orders.
    pub seed: [u8; 32],
    pub trader: AccountId,
    pub receiver: AccountId,
    pub src_chain_id: u32,
    pub dest_chain_id: u32,
    pub token_in: AccountId,
    pub token_out: AccountId,
    /// The deposited source amount; always positive.
    pub amount: u64,
    /// The fee assessed at creation; never exceeds `amount`.
    pub fee: u64,
    /// Minimum acceptable payout as a decimal string, parsed at fill time.
    pub min_amount_out: String,
    pub status: OrderStatus,
    /// Present between the two fill phases.
    pub fill: Option<FillSnapshot>,
}

/// Whether an order with composite key `(trader, seed)` exists.
pub open spec fn has_order_key(s: Seq<Order>, trader: Seq<u8>, seed: Seq<u8>) -> bool {
    exists|i: int| 0 <= i < s.len() && s[i].trader@ == trader && s[i].seed@ == seed
}

/// Whether an order with the given hash exists.
pub open spec fn has_order_hash(s: Seq<Order>, h: Seq<u8>) -> bool {
    exists|i: int| 0 <= i < s.len() && s[i].order_hash@ == h
}

/// The index of the order with the given hash; meaningful only under
/// [`has_order_hash`] and [`orders_unique`].
pub open spec fn order_hash_index(s: Seq<Order>, h: Seq<u8>) -> int {
    choose|i: int| 0 <= i < s.len() && s[i].order_hash@ == h
}

/// No two orders share a hash, and no two share `(trader, seed)`.
pub open spec fn orders_unique(s: Seq<Order>) -> bool {
    forall|i: int, j: int|
        0 <= i < j < s.len() ==> s[i].order_hash@ != s[j].order_hash@ && !(s[i].trader@
            == s[j].trader@ && s[i].seed@ == s[j].seed@)
}

/// Well-formed order book: unique keys, and every record's fee within its
/// amount with a positive amount.
pub open spec fn orders_wf(s: Seq<Order>) -> bool {
    &&& orders_unique(s)
    &&& forall|i: int| 0 <= i < s.len() ==> s[i].fee <= s[i].amount && s[i].amount > 0
}

/// The order with a fill snapshot recorded by the first fill phase.
pub open spec fn with_snapshot(o: Order, snap: FillSnapshot) -> Order {
    Order {
        order_hash: o.order_hash,
        seed: o.seed,
        trader: o.trader,
        receiver: o.receiver,
        src_chain_id: o.src_chain_id,
        dest_chain_id: o.dest_chain_id,
        token_in: o.token_in,
        token_out: o.token_out,
        amount: o.amount,
        fee: o.fee,
        min_amount_out: o.min_amount_out,
        status: o.status,
        fill: Some(snap),
    }
}

/// The order moved to a terminal status, its snapshot cleared.
pub open spec fn with_status(o: Order, st: OrderStatus) -> Order {
    Order {
        order_hash: o.order_hash,
        seed: o.seed,
        trader: o.trader,
        receiver: o.receiver,
        src_chain_id: o.src_chain_id,
        dest_chain_id: o.dest_chain_id,
        token_in: o.token_in,
        token_out: o.token_out,
        amount: o.amount,
        fee: o.fee,
        min_amount_out: o.min_amount_out,
        status: st,
        fill: None,
    }
}

/// Finds the order with the given `(trader, seed)` key, if one exists.
pub fn find_order_by_key(s: &Vec<Order>, trader: &AccountId, seed: &[u8; 32]) -> (r: Option<usize>)
    ensures
        match r {
            Some(i) => i < s@.len() && s@[i as int].trader@ == trader@ && s@[i as int].seed@
                == seed@,
            None => !has_order_key(s@, trader@, seed@),
        },
{
    let mut i: usize = 0;
    while i < s.len()
        invariant
            0 <= i <= s@.len(),
            forall|j: int| 0 <= j < i ==> !(s@[j].trader@ == trader@ && s@[j].seed@ == seed@),
        decreases s@.len() - i,
    {
        if crate::ids::id_eq(&s[i].trader, trader) && crate::ids::id_eq(&s[i].seed, seed) {
            return Some(i);
        }
        i += 1;
    }
    None
}

/// Finds the order with the given hash, if one exists.
pub fn find_order_by_hash(s: &Vec<Order>, h: &[u8; 32]) -> (r: Option<usize>)
    ensures
        match r {
            Some(i) => i < s@.len() && s@[i as int].order_hash@ == h@,
            None => !has_order_hash(s@, h@),
        },
{
    let mut i: usize = 0;
    while i < s.len()
        invariant
            0 <= i <= s@.len(),
            forall|j: int| 0 <= j < i ==> s@[j].order_hash@ != h@,
        decreases s@.len() - i,
    {
        if crate::ids::id_eq(&s[i].order_hash, h) {
            return Some(i);
        }
        i += 1;
    }
    None
}

/// Replacing one order with a record that keeps its keys, amount and fee
/// keeps the whole book well-formed.
pub proof fn lemma_orders_update_same_keys(s: Seq<Order>, i: int, o2: Order)
    requires
        orders_wf(s),
        0 <= i < s.len(),
        o2.order_hash@ == s[i].order_hash@,
        o2.trader@ == s[i].trader@,
        o2.seed@ == s[i].seed@,
        o2.fee == s[i].fee,
        o2.amount == s[i].amount,
    ensures
        orders_wf(s.update(i, o2)),
{
    let s2 = s.update(i, o2);
    assert forall|a: int, b: int|
        0 <= a < b < s2.len() implies s2[a].order_hash@ != s2[b].order_hash@ && !(s2[a].trader@
        == s2[b].trader@ && s2[a].seed@ == s2[b].seed@) by {
        assert(s[a].order_hash@ != s[b].order_hash@);
        assert(!(s[a].trader@ == s[b].trader@ && s[a].seed@ == s[b].seed@));
        if a == i {
            assert(s2[a] == o2);
        } else {
            assert(s2[a] == s[a]);
        }
        if b == i {
            assert(s2[b] == o2);
        } else {
            assert(s2[b] == s[b]);
        }
    }
    assert forall|a: int| 0 <= a < s2.len() implies s2[a].fee <= s2[a].amount && s2[a].amount
        > 0 by {
        assert(s[a].fee <= s[a].amount && s[a].amount > 0);
        if a == i {
            assert(s2[a] == o2);
        } else {
            assert(s2[a] == s[a]);
        }
    }
}

/// The order index the hash resolves to matches the hash and is the only
/// such index.
pub proof fn lemma_order_hash_index(s: Seq<Order>, h: Seq<u8>)
    requires
        has_order_hash(s, h),
    ensures
        0 <= order_hash_index(s, h) < s.len(),
        s[order_hash_index(s, h)].order_hash@ == h,
{
    let i = choose|i: int| 0 <= i < s.len() && s[i].order_hash@ == h;
    assert(0 <= i < s.len() && s[i].order_hash@ == h);
}

/// Under unique hashes, any index whose order carries the hash is the one
/// the hash resolves to.
pub proof fn lemma_order_hash_index_unique(s: Seq<Order>, h: Seq<u8>, i: int)
    requires
        orders_unique(s),
        0 <= i < s.len(),
        s[i].order_hash@ == h,
    ensures
        has_order_hash(s, h),
        order_hash_index(s, h) == i,
{
    assert(has_order_hash(s, h));
    lemma_order_hash_index(s, h);
    let j = order_hash_index(s, h);
    if j < i {
        assert(s[j].order_hash@ != s[i].order_hash@);
    } else if i < j {
        assert(s[i].order_hash@ != s[j].order_hash@);
    }
}

} // verus!
