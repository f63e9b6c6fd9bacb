use ju::errors::BridgeError;
use ju::fees::{lookup_fee, make_fee_tiers, FeeTier};

fn table(rows: &[(u64, u64)]) -> Vec<FeeTier> {
    let mut t: Vec<FeeTier> = Vec::new();
    for &(threshold_amount, bps_fee) in rows {
        t.push(FeeTier { threshold_amount, bps_fee });
    }
    t
}

#[test]
fn lookup_fee_matches_example_schedule() {
    let t = table(&[(0, 50), (1000, 30), (10000, 10)]);
    assert_eq!(lookup_fee(500, &t), 50);
    assert_eq!(lookup_fee(5000, &t), 30);
    assert_eq!(lookup_fee(50000, &t), 10);
}

#[test]
fn lookup_fee_at_exact_thresholds() {
    let t = table(&[(0, 50), (1000, 30), (10000, 10)]);
    assert_eq!(lookup_fee(0, &t), 50);
    assert_eq!(lookup_fee(999, &t), 50);
    assert_eq!(lookup_fee(1000, &t), 30);
    assert_eq!(lookup_fee(9999, &t), 30);
    assert_eq!(lookup_fee(10000, &t), 10);
    assert_eq!(lookup_fee(u64::MAX, &t), 10);
}

#[test]
fn lookup_fee_below_first_threshold_uses_first_tier() {
    let t = table(&[(100, 7), (1000, 9)]);
    assert_eq!(lookup_fee(0, &t), 7);
    assert_eq!(lookup_fee(99, &t), 7);
    assert_eq!(lookup_fee(100, &t), 7);
    assert_eq!(lookup_fee(1000, &t), 9);
}

#[test]
fn lookup_fee_monotonic_for_ascending_rates() {
    let t = table(&[(0, 10), (500, 20), (2000, 40)]);
    let mut last: u64 = 0;
    for a in [0u64, 1, 499, 500, 501, 1999, 2000, 50000] {
        let f = lookup_fee(a, &t);
        assert!(f >= last);
        last = f;
    }
}

#[test]
fn make_fee_tiers_rejects_mismatched_lengths() {
    let thresholds: Vec<u64> = vec![0, 10];
    let fees: Vec<u64> = vec![5];
    assert_eq!(
        make_fee_tiers(&thresholds, &fees).err(),
        Some(BridgeError::FeeTierConfigInvalid)
    );
}

#[test]
fn make_fee_tiers_rejects_unordered_thresholds() {
    let thresholds: Vec<u64> = vec![0, 10, 10];
    let fees: Vec<u64> = vec![5, 4, 3];
    assert_eq!(
        make_fee_tiers(&thresholds, &fees).err(),
        Some(BridgeError::FeeTierConfigInvalid)
    );
    let descending: Vec<u64> = vec![10, 0];
    let two: Vec<u64> = vec![5, 4];
    assert_eq!(
        make_fee_tiers(&descending, &two).err(),
        Some(BridgeError::FeeTierConfigInvalid)
    );
}

#[test]
fn make_fee_tiers_accepts_ascending_pairs() {
    let thresholds: Vec<u64> = vec![0, 10, 20];
    let fees: Vec<u64> = vec![5, 4, 3];
    let t = make_fee_tiers(&thresholds, &fees).unwrap();
    assert_eq!(t.len(), 3);
    assert_eq!(t[1].threshold_amount, 10);
    assert_eq!(t[1].bps_fee, 4);
}

#[test]
fn parse_decimal_reads_plain_integers() {
    assert_eq!(ju::decimal::parse_decimal("0"), Some(0));
    assert_eq!(ju::decimal::parse_decimal("42"), Some(42));
    assert_eq!(ju::decimal::parse_decimal("18446744073709551615"), Some(u64::MAX));
}

#[test]
fn parse_decimal_rejects_bad_input() {
    assert_eq!(ju::decimal::parse_decimal(""), None);
    assert_eq!(ju::decimal::parse_decimal("12x"), None);
    assert_eq!(ju::decimal::parse_decimal("-5"), None);
    assert_eq!(ju::decimal::parse_decimal("1.5"), None);
    assert_eq!(ju::decimal::parse_decimal("18446744073709551616"), None);
}

#[test]
fn compute_protocol_fee_uses_integer_division() {
    assert_eq!(ju::fees::compute_protocol_fee(100, 1, 3), Ok(33));
    assert_eq!(ju::fees::compute_protocol_fee(2, 1, 2), Ok(1));
    assert_eq!(ju::fees::compute_protocol_fee(0, 5, 7), Ok(0));
    assert_eq!(
        ju::fees::compute_protocol_fee(u64::MAX, 2, 1),
        Err(BridgeError::ArithmeticOverflow)
    );
}

#[test]
fn error_messages_are_nonempty() {
    assert!(!BridgeError::Unauthorized.message().is_empty());
    assert!(!BridgeError::MinAmountOutNotMet.message().is_empty());
    assert!(!BridgeError::GlobalStateFrozen.message().is_empty());
}
