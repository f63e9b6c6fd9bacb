use ju::errors::BridgeError;
use ju::order::OrderStatus;
use ju::state::Bridge;
use ju::vault::FeeType;

fn id(b: u8) -> [u8; 32] {
    [b; 32]
}

const ADMIN: u8 = 1;
const TRADER: u8 = 2;
const ORCH: u8 = 3;
const RECEIVER: u8 = 4;
const TOKEN_IN: u8 = 10;
const TOKEN_OUT: u8 = 11;

/// A bridge with the example fee schedule, a funded trader and an
/// orchestrator holding every permission.
fn setup() -> Bridge {
    let admin = id(ADMIN);
    let mut b = Bridge::initialize(admin);
    let thresholds: Vec<u64> = vec![0, 1000, 10000];
    let fees: Vec<u64> = vec![50, 30, 10];
    b.set_fee_tiers(&admin, &thresholds, &fees).unwrap();
    b.add_orchestrator(&admin, id(ORCH), true, true, true, true, true, true)
        .unwrap();
    b.credit_account(&id(TRADER), &id(TOKEN_IN), 1_000_000).unwrap();
    b
}

/// Creates the standard test order: 500 of the input token, 50 bps tier,
/// so a fee of 2 and a liquidity share of 498.
fn create_std_order(b: &mut Bridge) -> Result<(), BridgeError> {
    b.create_order(
        &id(TRADER),
        500,
        id(20),
        id(21),
        id(RECEIVER),
        1,
        2,
        id(TOKEN_IN),
        2,
        "100".to_string(),
        id(TOKEN_OUT),
    )
}

#[test]
fn initialize_sets_admin_and_defaults() {
    let b = Bridge::initialize(id(ADMIN));
    assert_eq!(b.global.admin, id(ADMIN));
    assert!(b.global.pending_admin.is_none());
    assert!(!b.global.frozen);
    assert_eq!(b.global.max_order_amount, u64::MAX);
    assert_eq!(b.global.protocol_fee_denominator, 1);
    assert!(b.orders.is_empty());
}

#[test]
fn nominate_and_accept_hand_over_admin() {
    let mut b = Bridge::initialize(id(ADMIN));
    assert_eq!(
        b.nominate_authority(&id(9), id(5)),
        Err(BridgeError::Unauthorized)
    );
    b.nominate_authority(&id(ADMIN), id(5)).unwrap();
    assert_eq!(b.global.pending_admin, Some(id(5)));
    // Only the nominee may accept; power has not moved yet.
    assert_eq!(b.accept_authority(&id(6)), Err(BridgeError::Unauthorized));
    assert_eq!(b.global.admin, id(ADMIN));
    b.accept_authority(&id(5)).unwrap();
    assert_eq!(b.global.admin, id(5));
    assert!(b.global.pending_admin.is_none());
}

#[test]
fn accept_without_nomination_is_unauthorized() {
    let mut b = Bridge::initialize(id(ADMIN));
    assert_eq!(b.accept_authority(&id(ADMIN)), Err(BridgeError::Unauthorized));
}

#[test]
fn freeze_authority_management() {
    let admin = id(ADMIN);
    let mut b = Bridge::initialize(admin);
    b.add_freeze_authority(&admin, id(7)).unwrap();
    // Idempotent-safe: adding again neither fails nor duplicates.
    b.add_freeze_authority(&admin, id(7)).unwrap();
    assert_eq!(b.global.freeze_authorities.len(), 1);
    assert_eq!(
        b.remove_freeze_authority(&admin, &id(8)),
        Err(BridgeError::NotFound)
    );
    b.remove_freeze_authority(&admin, &id(7)).unwrap();
    assert!(b.global.freeze_authorities.is_empty());
    assert_eq!(
        b.add_freeze_authority(&id(9), id(7)),
        Err(BridgeError::Unauthorized)
    );
}

#[test]
fn freeze_and_thaw_gate_order_creation() {
    let admin = id(ADMIN);
    let mut b = setup();
    b.add_freeze_authority(&admin, id(7)).unwrap();
    b.add_thaw_authority(&admin, id(8)).unwrap();
    // Only a listed authority may freeze.
    assert_eq!(b.freeze_global_state(&id(9)), Err(BridgeError::Unauthorized));
    b.freeze_global_state(&id(7)).unwrap();
    assert!(b.global.frozen);
    assert_eq!(create_std_order(&mut b), Err(BridgeError::GlobalStateFrozen));
    // Freezing again is permitted and changes nothing.
    b.freeze_global_state(&id(7)).unwrap();
    assert_eq!(b.thaw_global_state(&id(7)), Err(BridgeError::Unauthorized));
    b.thaw_global_state(&id(8)).unwrap();
    assert!(!b.global.frozen);
    // The identical call now succeeds.
    create_std_order(&mut b).unwrap();
}

#[test]
fn create_order_moves_deposit_into_vault() {
    let mut b = setup();
    create_std_order(&mut b).unwrap();
    assert_eq!(b.balance_of(&id(TRADER), &id(TOKEN_IN)), 1_000_000 - 500);
    assert_eq!(b.token_liquidity(&id(TOKEN_IN)), 498);
    assert_eq!(b.fee_pool_balance(&id(TOKEN_IN), FeeType::Base), 2);
    assert_eq!(b.fee_pool_balance(&id(TOKEN_IN), FeeType::Protocol), 0);
    assert_eq!(b.order_status(&id(21)), Some(OrderStatus::Created));
}

#[test]
fn create_order_replay_fails_and_changes_nothing() {
    let mut b = setup();
    create_std_order(&mut b).unwrap();
    let liquidity = b.token_liquidity(&id(TOKEN_IN));
    let base = b.fee_pool_balance(&id(TOKEN_IN), FeeType::Base);
    let trader_bal = b.balance_of(&id(TRADER), &id(TOKEN_IN));
    assert_eq!(create_std_order(&mut b), Err(BridgeError::OrderAlreadyExists));
    // Same (trader, seed) with a different hash is still a replay.
    assert_eq!(
        b.create_order(
            &id(TRADER),
            500,
            id(20),
            id(99),
            id(RECEIVER),
            1,
            2,
            id(TOKEN_IN),
            2,
            "100".to_string(),
            id(TOKEN_OUT),
        ),
        Err(BridgeError::OrderAlreadyExists)
    );
    assert_eq!(b.token_liquidity(&id(TOKEN_IN)), liquidity);
    assert_eq!(b.fee_pool_balance(&id(TOKEN_IN), FeeType::Base), base);
    assert_eq!(b.balance_of(&id(TRADER), &id(TOKEN_IN)), trader_bal);
}

#[test]
fn create_order_rejects_bad_amounts_and_fees() {
    let admin = id(ADMIN);
    let mut b = setup();
    let res = b.create_order(
        &id(TRADER),
        0,
        id(30),
        id(31),
        id(RECEIVER),
        1,
        2,
        id(TOKEN_IN),
        0,
        "1".to_string(),
        id(TOKEN_OUT),
    );
    assert_eq!(res, Err(BridgeError::InvalidAmount));
    b.update_global_state_params(&admin, None, None, Some(400)).unwrap();
    assert_eq!(create_std_order(&mut b), Err(BridgeError::InvalidAmount));
    b.update_global_state_params(&admin, None, None, Some(u64::MAX)).unwrap();
    // A fee that does not match the schedule is rejected.
    let res = b.create_order(
        &id(TRADER),
        500,
        id(30),
        id(31),
        id(RECEIVER),
        1,
        2,
        id(TOKEN_IN),
        3,
        "1".to_string(),
        id(TOKEN_OUT),
    );
    assert_eq!(res, Err(BridgeError::InvalidAmount));
}

#[test]
fn create_order_without_fee_schedule_is_rejected() {
    let mut b = Bridge::initialize(id(ADMIN));
    b.credit_account(&id(TRADER), &id(TOKEN_IN), 1000).unwrap();
    let res = b.create_order(
        &id(TRADER),
        500,
        id(30),
        id(31),
        id(RECEIVER),
        1,
        2,
        id(TOKEN_IN),
        0,
        "1".to_string(),
        id(TOKEN_OUT),
    );
    assert_eq!(res, Err(BridgeError::FeeTierConfigInvalid));
}

#[test]
fn create_order_with_unfunded_trader_fails_transfer() {
    let mut b = setup();
    let res = b.create_order(
        &id(99),
        500,
        id(30),
        id(31),
        id(RECEIVER),
        1,
        2,
        id(TOKEN_IN),
        2,
        "1".to_string(),
        id(TOKEN_OUT),
    );
    assert_eq!(res, Err(BridgeError::TransferFailed));
}

#[test]
fn create_order_detects_fee_multiplication_overflow() {
    let admin = id(ADMIN);
    let mut b = setup();
    let thresholds: Vec<u64> = vec![0];
    let fees: Vec<u64> = vec![u64::MAX];
    b.set_fee_tiers(&admin, &thresholds, &fees).unwrap();
    let res = b.create_order(
        &id(TRADER),
        2,
        id(30),
        id(31),
        id(RECEIVER),
        1,
        2,
        id(TOKEN_IN),
        0,
        "1".to_string(),
        id(TOKEN_OUT),
    );
    assert_eq!(res, Err(BridgeError::ArithmeticOverflow));
}

#[test]
fn protocol_fee_fraction_splits_fee_pools() {
    let admin = id(ADMIN);
    let mut b = setup();
    assert_eq!(
        b.set_protocol_fee_fraction(&admin, 1, 0),
        Err(BridgeError::InvalidAmount)
    );
    b.set_protocol_fee_fraction(&admin, 1, 2).unwrap();
    create_std_order(&mut b).unwrap();
    // fee 2, protocol share 2 * 1 / 2 = 1, base share 1.
    assert_eq!(b.fee_pool_balance(&id(TOKEN_IN), FeeType::Protocol), 1);
    assert_eq!(b.fee_pool_balance(&id(TOKEN_IN), FeeType::Base), 1);
    assert_eq!(b.token_liquidity(&id(TOKEN_IN)), 498);
}

#[test]
fn fill_order_records_snapshot_and_transfer_pays_receiver() {
    let mut b = setup();
    create_std_order(&mut b).unwrap();
    b.fill_order(
        &id(ORCH),
        500,
        id(20),
        id(21),
        id(TRADER),
        1,
        2,
        id(TOKEN_IN),
        2,
        "100".to_string(),
    )
    .unwrap();
    assert_eq!(b.order_status(&id(21)), Some(OrderStatus::Created));
    // The swap has not produced anything yet: the balance delta is zero.
    assert_eq!(
        b.fill_order_token_transfer(&id(ORCH), id(21), 100, 0),
        Err(BridgeError::MinAmountOutNotMet)
    );
    assert_eq!(b.order_status(&id(21)), Some(OrderStatus::Created));
    // The swap proceeds land on the orchestrator; the delta now covers
    // the minimum and moves to the receiver.
    b.credit_account(&id(ORCH), &id(TOKEN_OUT), 150).unwrap();
    b.fill_order_token_transfer(&id(ORCH), id(21), 100, 0).unwrap();
    assert_eq!(b.order_status(&id(21)), Some(OrderStatus::Filled));
    assert_eq!(b.balance_of(&id(RECEIVER), &id(TOKEN_OUT)), 150);
    assert_eq!(b.balance_of(&id(ORCH), &id(TOKEN_OUT)), 0);
}

#[test]
fn fill_order_requires_permission_and_matching_fields() {
    let admin = id(ADMIN);
    let mut b = setup();
    create_std_order(&mut b).unwrap();
    assert_eq!(
        b.fill_order(
            &id(99),
            500,
            id(20),
            id(21),
            id(TRADER),
            1,
            2,
            id(TOKEN_IN),
            2,
            "100".to_string(),
        ),
        Err(BridgeError::Unauthorized)
    );
    // A mismatched stored field (wrong amount) is a stale fill attempt.
    assert_eq!(
        b.fill_order(
            &id(ORCH),
            501,
            id(20),
            id(21),
            id(TRADER),
            1,
            2,
            id(TOKEN_IN),
            2,
            "100".to_string(),
        ),
        Err(BridgeError::OrderNotFound)
    );
    // An unknown hash is not found.
    assert_eq!(
        b.fill_order(
            &id(ORCH),
            500,
            id(20),
            id(77),
            id(TRADER),
            1,
            2,
            id(TOKEN_IN),
            2,
            "100".to_string(),
        ),
        Err(BridgeError::OrderNotFound)
    );
    // A tombstoned orchestrator loses the permission.
    b.remove_orchestrator(&admin, &id(ORCH)).unwrap();
    assert_eq!(
        b.fill_order(
            &id(ORCH),
            500,
            id(20),
            id(21),
            id(TRADER),
            1,
            2,
            id(TOKEN_IN),
            2,
            "100".to_string(),
        ),
        Err(BridgeError::Unauthorized)
    );
}

#[test]
fn fill_order_rejects_unparsable_minimum() {
    let mut b = setup();
    b.create_order(
        &id(TRADER),
        500,
        id(40),
        id(41),
        id(RECEIVER),
        1,
        2,
        id(TOKEN_IN),
        2,
        "12x".to_string(),
        id(TOKEN_OUT),
    )
    .unwrap();
    assert_eq!(
        b.fill_order(
            &id(ORCH),
            500,
            id(40),
            id(41),
            id(TRADER),
            1,
            2,
            id(TOKEN_IN),
            2,
            "12x".to_string(),
        ),
        Err(BridgeError::InvalidAmount)
    );
}

#[test]
fn revert_order_returns_funds_and_is_terminal() {
    let mut b = setup();
    create_std_order(&mut b).unwrap();
    let trader_before = b.balance_of(&id(TRADER), &id(TOKEN_IN));
    b.revert_order(&id(ORCH), id(21)).unwrap();
    assert_eq!(b.order_status(&id(21)), Some(OrderStatus::Reverted));
    // The deposit minus the assessed fee comes back out of liquidity.
    assert_eq!(b.balance_of(&id(TRADER), &id(TOKEN_IN)), trader_before + 498);
    assert_eq!(b.token_liquidity(&id(TOKEN_IN)), 0);
    assert_eq!(
        b.revert_order(&id(ORCH), id(21)),
        Err(BridgeError::InvalidOrderStatus)
    );
    assert_eq!(
        b.fill_order(
            &id(ORCH),
            500,
            id(20),
            id(21),
            id(TRADER),
            1,
            2,
            id(TOKEN_IN),
            2,
            "100".to_string(),
        ),
        Err(BridgeError::InvalidOrderStatus)
    );
}

#[test]
fn revert_order_checks_permission_and_existence() {
    let mut b = setup();
    create_std_order(&mut b).unwrap();
    assert_eq!(b.revert_order(&id(99), id(21)), Err(BridgeError::Unauthorized));
    assert_eq!(b.revert_order(&id(ORCH), id(77)), Err(BridgeError::OrderNotFound));
}

#[test]
fn filled_order_cannot_be_reverted() {
    let mut b = setup();
    create_std_order(&mut b).unwrap();
    b.fill_order(
        &id(ORCH),
        500,
        id(20),
        id(21),
        id(TRADER),
        1,
        2,
        id(TOKEN_IN),
        2,
        "100".to_string(),
    )
    .unwrap();
    b.credit_account(&id(ORCH), &id(TOKEN_OUT), 150).unwrap();
    b.fill_order_token_transfer(&id(ORCH), id(21), 100, 0).unwrap();
    assert_eq!(
        b.revert_order(&id(ORCH), id(21)),
        Err(BridgeError::InvalidOrderStatus)
    );
}

#[test]
fn claim_fees_respects_pool_balances() {
    let mut b = setup();
    create_std_order(&mut b).unwrap();
    assert_eq!(b.fee_pool_balance(&id(TOKEN_IN), FeeType::Base), 2);
    assert_eq!(
        b.claim_fees(&id(ORCH), id(TOKEN_IN), 3, FeeType::Base),
        Err(BridgeError::InsufficientVaultBalance)
    );
    assert_eq!(b.fee_pool_balance(&id(TOKEN_IN), FeeType::Base), 2);
    b.claim_fees(&id(ORCH), id(TOKEN_IN), 2, FeeType::Base).unwrap();
    assert_eq!(b.fee_pool_balance(&id(TOKEN_IN), FeeType::Base), 0);
    assert_eq!(b.balance_of(&id(ORCH), &id(TOKEN_IN)), 2);
    // The LP pool was never funded.
    assert_eq!(
        b.claim_fees(&id(ORCH), id(TOKEN_IN), 1, FeeType::Lp),
        Err(BridgeError::InsufficientVaultBalance)
    );
    assert_eq!(
        b.claim_fees(&id(99), id(TOKEN_IN), 1, FeeType::Base),
        Err(BridgeError::Unauthorized)
    );
}

#[test]
fn remove_bridge_liquidity_respects_available_liquidity() {
    let mut b = setup();
    create_std_order(&mut b).unwrap();
    assert_eq!(
        b.remove_bridge_liquidity(&id(ORCH), id(TOKEN_IN), 499),
        Err(BridgeError::InsufficientVaultBalance)
    );
    b.remove_bridge_liquidity(&id(ORCH), id(TOKEN_IN), 498).unwrap();
    assert_eq!(b.token_liquidity(&id(TOKEN_IN)), 0);
    assert_eq!(b.balance_of(&id(ORCH), &id(TOKEN_IN)), 498);
    assert_eq!(
        b.remove_bridge_liquidity(&id(99), id(TOKEN_IN), 1),
        Err(BridgeError::Unauthorized)
    );
}

#[test]
fn orchestrator_permissions_are_independent() {
    let admin = id(ADMIN);
    let mut b = setup();
    // An orchestrator with only the revert permission cannot fill.
    b.add_orchestrator(&admin, id(50), false, true, false, false, false, false)
        .unwrap();
    create_std_order(&mut b).unwrap();
    assert_eq!(
        b.fill_order(
            &id(50),
            500,
            id(20),
            id(21),
            id(TRADER),
            1,
            2,
            id(TOKEN_IN),
            2,
            "100".to_string(),
        ),
        Err(BridgeError::Unauthorized)
    );
    b.revert_order(&id(50), id(21)).unwrap();
}

#[test]
fn remove_orchestrator_requires_record() {
    let admin = id(ADMIN);
    let mut b = Bridge::initialize(admin);
    assert_eq!(
        b.remove_orchestrator(&admin, &id(50)),
        Err(BridgeError::NotFound)
    );
    b.add_orchestrator(&admin, id(50), true, true, true, true, true, true)
        .unwrap();
    b.remove_orchestrator(&admin, &id(50)).unwrap();
    // The record stays addressable: re-adding reactivates it in place.
    assert_eq!(b.orchestrators.len(), 1);
    assert!(b.orchestrators[0].removed);
    b.add_orchestrator(&admin, id(50), true, false, false, false, false, false)
        .unwrap();
    assert_eq!(b.orchestrators.len(), 1);
    assert!(!b.orchestrators[0].removed);
}

#[test]
fn update_global_state_params_is_partial() {
    let admin = id(ADMIN);
    let mut b = Bridge::initialize(admin);
    b.update_global_state_params(&admin, Some(7), None, Some(1234)).unwrap();
    assert_eq!(b.global.rebalance_threshold, 7);
    assert_eq!(b.global.cross_chain_fee_bps, 0);
    assert_eq!(b.global.max_order_amount, 1234);
    b.update_global_state_params(&admin, None, Some(15), None).unwrap();
    assert_eq!(b.global.rebalance_threshold, 7);
    assert_eq!(b.global.cross_chain_fee_bps, 15);
    assert_eq!(b.global.max_order_amount, 1234);
    assert_eq!(
        b.update_global_state_params(&id(9), Some(1), None, None),
        Err(BridgeError::Unauthorized)
    );
}

#[test]
fn set_target_chain_min_fee_upserts_per_chain() {
    let admin = id(ADMIN);
    let mut b = Bridge::initialize(admin);
    b.set_target_chain_min_fee(&admin, 5, 100).unwrap();
    b.set_target_chain_min_fee(&admin, 6, 200).unwrap();
    b.set_target_chain_min_fee(&admin, 5, 150).unwrap();
    assert_eq!(b.chain_min_fees.len(), 2);
    assert_eq!(b.chain_min_fees[0].dest_chain_id, 5);
    assert_eq!(b.chain_min_fees[0].min_fee, 150);
    assert_eq!(b.chain_min_fees[1].min_fee, 200);
    assert_eq!(
        b.set_target_chain_min_fee(&id(9), 5, 1),
        Err(BridgeError::Unauthorized)
    );
}

#[test]
fn set_insurance_fee_tiers_mirrors_fee_tier_rules() {
    let admin = id(ADMIN);
    let mut b = Bridge::initialize(admin);
    let thresholds: Vec<u64> = vec![0, 100];
    let fees: Vec<u64> = vec![9, 8];
    b.set_insurance_fee_tiers(&admin, &thresholds, &fees).unwrap();
    assert_eq!(b.global.insurance_fee_tiers.len(), 2);
    let bad: Vec<u64> = vec![100, 0];
    assert_eq!(
        b.set_insurance_fee_tiers(&admin, &bad, &fees),
        Err(BridgeError::FeeTierConfigInvalid)
    );
    assert_eq!(
        b.set_insurance_fee_tiers(&id(9), &thresholds, &fees),
        Err(BridgeError::Unauthorized)
    );
}

#[test]
fn credit_account_rejects_balance_overflow() {
    let mut b = Bridge::initialize(id(ADMIN));
    b.credit_account(&id(TRADER), &id(TOKEN_IN), u64::MAX).unwrap();
    assert_eq!(
        b.credit_account(&id(TRADER), &id(TOKEN_IN), 1),
        Err(BridgeError::ArithmeticOverflow)
    );
    assert_eq!(b.balance_of(&id(TRADER), &id(TOKEN_IN)), u64::MAX);
}

#[test]
fn revert_fails_when_liquidity_was_withdrawn() {
    let mut b = setup();
    create_std_order(&mut b).unwrap();
    b.remove_bridge_liquidity(&id(ORCH), id(TOKEN_IN), 498).unwrap();
    assert_eq!(
        b.revert_order(&id(ORCH), id(21)),
        Err(BridgeError::InsufficientVaultBalance)
    );
    assert_eq!(b.order_status(&id(21)), Some(OrderStatus::Created));
}

#[test]
fn fill_transfer_with_orchestrator_as_receiver() {
    let mut b = setup();
    b.create_order(
        &id(TRADER),
        500,
        id(70),
        id(71),
        id(ORCH),
        1,
        2,
        id(TOKEN_IN),
        2,
        "100".to_string(),
        id(TOKEN_OUT),
    )
    .unwrap();
    b.fill_order(
        &id(ORCH),
        500,
        id(70),
        id(71),
        id(TRADER),
        1,
        2,
        id(TOKEN_IN),
        2,
        "100".to_string(),
    )
    .unwrap();
    b.credit_account(&id(ORCH), &id(TOKEN_OUT), 150).unwrap();
    // Paying itself: the observed delta leaves and returns.
    b.fill_order_token_transfer(&id(ORCH), id(71), 100, 0).unwrap();
    assert_eq!(b.order_status(&id(71)), Some(OrderStatus::Filled));
    assert_eq!(b.balance_of(&id(ORCH), &id(TOKEN_OUT)), 150);
}

#[test]
fn fill_transfer_checks_snapshot_values() {
    let mut b = setup();
    create_std_order(&mut b).unwrap();
    b.fill_order(
        &id(ORCH),
        500,
        id(20),
        id(21),
        id(TRADER),
        1,
        2,
        id(TOKEN_IN),
        2,
        "100".to_string(),
    )
    .unwrap();
    // Phase two before phase one recorded different values is rejected.
    assert_eq!(
        b.fill_order_token_transfer(&id(ORCH), id(21), 99, 0),
        Err(BridgeError::InvalidAmount)
    );
    // Only the snapshotting orchestrator may run phase two.
    assert_eq!(
        b.fill_order_token_transfer(&id(99), id(21), 100, 0),
        Err(BridgeError::Unauthorized)
    );
    // Phase two without phase one is an invalid status.
    b.create_order(
        &id(TRADER),
        500,
        id(60),
        id(61),
        id(RECEIVER),
        1,
        2,
        id(TOKEN_IN),
        2,
        "1".to_string(),
        id(TOKEN_OUT),
    )
    .unwrap();
    assert_eq!(
        b.fill_order_token_transfer(&id(ORCH), id(61), 1, 0),
        Err(BridgeError::InvalidOrderStatus)
    );
}
