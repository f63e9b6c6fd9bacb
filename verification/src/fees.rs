//! The tiered fee schedule.
//!
//! A tier table is an ascending list of `(threshold, bps)` pairs.  An amount
//! is charged the bps rate of the greatest threshold that does not exceed
//! it; an amount below every threshold falls back to the first tier's rate,
//! so there is no free tier.  The matched rate applies to the whole amount
//! (a bracket lookup, not a marginal schedule).

use vstd::prelude::*;
use crate::errors::BridgeError;

verus! {

/// One row of a tier table: amounts from `threshold_amount` upward (until
/// the next tier) pay `bps_fee` basis points.
#[derive(Clone, Copy, Debug, PartialEq, Eq, Structural)]
pub struct FeeTier {
    pub threshold_amount: u64,
    pub bps_fee: u64,
}

/// Thresholds strictly ascending: no ambiguous or unreachable tier.
pub open spec fn tiers_ascending(s: Seq<FeeTier>) -> bool {
    forall|i: int, j: int|
        0 <= i < j < s.len() ==> s[i].threshold_amount < s[j].threshold_amount
}

/// A threshold/rate array pair that `set_fee_tiers` accepts: equal lengths
/// and strictly ascending thresholds.
pub open spec fn valid_tier_config(thresholds: Seq<u64>, fees: Seq<u64>) -> bool {
    &&& thresholds.len() == fees.len()
    &&& forall|i: int, j: int| 0 <= i < j < thresholds.len() ==> thresholds[i] < thresholds[j]
}

/// The index of the tier an amount falls in: the greatest index whose
/// threshold is at most `a`, or 0 when `a` lies below every threshold.
pub open spec fn spec_lookup_tier(a: u64, s: Seq<FeeTier>) -> int
    decreases s.len(),
{
    if s.len() <= 1 {
        0
    } else if s.last().threshold_amount <= a {
        s.len() - 1
    } else {
        spec_lookup_tier(a, s.drop_last())
    }
}

/// The bps rate a tier table charges for an amount.
pub open spec fn spec_lookup_fee(a: u64, s: Seq<FeeTier>) -> u64
    recommends
        s.len() > 0,
    decreases s.len(),
{
    if s.len() <= 1 {
        s[0].bps_fee
    } else if s.last().threshold_amount <= a {
        s.last().bps_fee
    } else {
        spec_lookup_fee(a, s.drop_last())
    }
}

/// The looked-up fee is the rate of the looked-up tier, and the tier index
/// is in range.
pub proof fn lemma_lookup_tier_in_range(a: u64, s: Seq<FeeTier>)
    requires
        s.len() > 0,
    ensures
        0 <= spec_lookup_tier(a, s) < s.len(),
        spec_lookup_fee(a, s) == s[spec_lookup_tier(a, s)].bps_fee,
    decreases s.len(),
{
    if s.len() > 1 && s.last().threshold_amount > a {
        lemma_lookup_tier_in_range(a, s.drop_last());
    }
}

/// The looked-up tier's threshold does not exceed the amount, unless the
/// amount lies below every threshold and the first tier acts as the floor.
pub proof fn lemma_lookup_tier_matches(a: u64, s: Seq<FeeTier>)
    requires
        s.len() > 0,
        tiers_ascending(s),
    ensures
        spec_lookup_tier(a, s) > 0 ==> s[spec_lookup_tier(a, s)].threshold_amount <= a,
        forall|j: int|
            spec_lookup_tier(a, s) < j < s.len() ==> s[j].threshold_amount > a,
    decreases s.len(),
{
    if s.len() > 1 && s.last().threshold_amount > a {
        assert(tiers_ascending(s.drop_last()));
        lemma_lookup_tier_matches(a, s.drop_last());
        lemma_lookup_tier_in_range(a, s.drop_last());
        let t = spec_lookup_tier(a, s);
        assert forall|j: int| t < j < s.len() implies s[j].threshold_amount > a by {
            if j < s.len() - 1 {
                assert(s.drop_last()[j] == s[j]);
            }
        }
    }
}

/// An amount below the first threshold matches the first tier: its rate is
/// the floor of the schedule.
pub proof fn lemma_lookup_fee_below_first(a: u64, s: Seq<FeeTier>)
    requires
        s.len() > 0,
        tiers_ascending(s),
        a < s[0].threshold_amount,
    ensures
        spec_lookup_tier(a, s) == 0,
        spec_lookup_fee(a, s) == s[0].bps_fee,
    decreases s.len(),
{
    if s.len() > 1 {
        assert(s[0].threshold_amount < s.last().threshold_amount);
        assert(tiers_ascending(s.drop_last()));
        lemma_lookup_fee_below_first(a, s.drop_last());
    }
}

/// The matched tier index never decreases as the amount grows.
pub proof fn lemma_lookup_tier_monotonic(a1: u64, a2: u64, s: Seq<FeeTier>)
    requires
        s.len() > 0,
        a1 <= a2,
    ensures
        spec_lookup_tier(a1, s) <= spec_lookup_tier(a2, s),
    decreases s.len(),
{
    if s.len() > 1 {
        if s.last().threshold_amount <= a1 {
        } else if s.last().threshold_amount <= a2 {
            lemma_lookup_tier_in_range(a1, s.drop_last());
        } else {
            lemma_lookup_tier_monotonic(a1, a2, s.drop_last());
        }
    }
}

/// The executable tier lookup: scans from the highest tier down to the one
/// whose threshold the amount reaches, or to the first tier.
pub fn lookup_fee(amount: u64, tiers: &Vec<FeeTier>) -> (r: u64)
    requires
        tiers@.len() > 0,
    ensures
        r == spec_lookup_fee(amount, tiers@),
{
    let mut k: usize = tiers.len() - 1;
    proof {
        assert(tiers@.subrange(0, tiers@.len() as int) =~= tiers@);
    }
    while k > 0 && tiers[k].threshold_amount > amount
        invariant
            0 <= k < tiers@.len(),
            spec_lookup_fee(amount, tiers@) == spec_lookup_fee(
                amount,
                tiers@.subrange(0, k + 1),
            ),
        decreases k,
    {
        proof {
            let sub = tiers@.subrange(0, k + 1);
            assert(sub.last() == tiers@[k as int]);
            assert(sub.drop_last() =~= tiers@.subrange(0, k as int));
        }
        k -= 1;
    }
    proof {
        let sub = tiers@.subrange(0, k + 1);
        assert(sub.last() == tiers@[k as int]);
        assert(sub[0] == tiers@[0]);
    }
    tiers[k].bps_fee
}

/// Splits out the protocol's share of an assessed fee:
/// `fee_amount * numerator / denominator` in integer arithmetic, failing
/// with `ArithmeticOverflow` when the multiplication leaves `u64`.
pub fn compute_protocol_fee(fee_amount: u64, numerator: u64, denominator: u64) -> (r: Result<
    u64,
    BridgeError,
>)
    requires
        denominator > 0,
    ensures
        r is Ok <==> fee_amount as int * numerator as int <= u64::MAX,
        (r matches Ok(v) ==> v as int == fee_amount as int * numerator as int
            / denominator as int),
        (r matches Err(e) ==> e == BridgeError::ArithmeticOverflow),
{
    match fee_amount.checked_mul(numerator) {
        Some(scaled) => Ok(scaled / denominator),
        None => Err(BridgeError::ArithmeticOverflow),
    }
}

/// Builds a tier table from parallel threshold and rate arrays, rejecting
/// mismatched lengths and thresholds that are not strictly ascending.
pub fn make_fee_tiers(thresholds: &Vec<u64>, fees: &Vec<u64>) -> (r: Result<
    Vec<FeeTier>,
    BridgeError,
>)
    ensures
        r is Ok <==> valid_tier_config(thresholds@, fees@),
        r matches Err(e) ==> e == BridgeError::FeeTierConfigInvalid,
        (r matches Ok(t) ==> t@.len() == thresholds@.len() && tiers_ascending(t@) && (forall|
            i: int,
        |
            0 <= i < t@.len() ==> t@[i] == (FeeTier {
                threshold_amount: thresholds@[i],
                bps_fee: fees@[i],
            }))),
{
    if thresholds.len() != fees.len() {
        return Err(BridgeError::FeeTierConfigInvalid);
    }
    let mut out: Vec<FeeTier> = Vec::new();
    let mut i: usize = 0;
    while i < thresholds.len()
        invariant
            0 <= i <= thresholds@.len(),
            thresholds@.len() == fees@.len(),
            out@.len() == i,
            forall|j: int|
                0 <= j < i ==> out@[j] == (FeeTier {
                    threshold_amount: thresholds@[j],
                    bps_fee: fees@[j],
                }),
            forall|j: int, k: int| 0 <= j < k < i ==> thresholds@[j] < thresholds@[k],
        decreases thresholds@.len() - i,
    {
        if i > 0 && thresholds[i - 1] >= thresholds[i] {
            return Err(BridgeError::FeeTierConfigInvalid);
        }
        out.push(FeeTier { threshold_amount: thresholds[i], bps_fee: fees[i] });
        i += 1;
    }
    proof {
        assert(tiers_ascending(out@));
    }
    Ok(out)
}

} // verus!
