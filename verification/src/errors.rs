//! The error taxonomy of the settlement core.
//!
//! Every rejected precondition of a public operation maps to exactly one of
//! these variants; no error is silently swallowed.

use vstd::prelude::*;

verus! {

/// Why an operation was rejected.  The whole operation aborts: no partial
/// state change survives a rejection.
#[derive(Clone, Copy, Debug, PartialEq, Eq, Structural)]
pub enum BridgeError {
    /// The caller lacks the required role or permission flag.
    Unauthorized,
    /// Order creation and filling are paused by a freeze authority.
    GlobalStateFrozen,
    /// An amount is zero, exceeds the configured maximum, or a supplied
    /// value does not match what the schedule derives.
    InvalidAmount,
    /// An order record for the same `(trader, seed)` or the same order hash
    /// already exists.
    OrderAlreadyExists,
    /// No order record matches the supplied identifiers and fields.
    OrderNotFound,
    /// The order is not in the state the requested transition needs.
    InvalidOrderStatus,
    /// The observed balance delta of the filling orchestrator stayed below
    /// the order's declared minimum payout.
    MinAmountOutNotMet,
    /// A tier table update had mismatched array lengths or thresholds that
    /// are not strictly ascending.
    FeeTierConfigInvalid,
    /// A checked multiplication, addition or subtraction left the `u64`
    /// range.
    ArithmeticOverflow,
    /// A claim or liquidity withdrawal asked for more than the pool holds.
    InsufficientVaultBalance,
    /// The token transfer collaborator could not move the funds (the payer
    /// holds less than the requested amount).
    TransferFailed,
    /// An authority or orchestrator record to remove is absent.
    NotFound,
}

impl BridgeError {
    /// A short human-readable name for the error, for hosts that display it.
    pub fn message(&self) -> (r: &'static str)
        ensures
            r@.len() > 0,
    {
        proof {
            reveal_strlit("unauthorized");
            reveal_strlit("global state frozen");
            reveal_strlit("invalid amount");
            reveal_strlit("order already exists");
            reveal_strlit("order not found");
            reveal_strlit("invalid order status");
            reveal_strlit("min amount out not met");
            reveal_strlit("fee tier config invalid");
            reveal_strlit("arithmetic overflow");
            reveal_strlit("insufficient vault balance");
            reveal_strlit("transfer failed");
            reveal_strlit("not found");
        }
        match self {
            BridgeError::Unauthorized => "unauthorized",
            BridgeError::GlobalStateFrozen => "global state frozen",
            BridgeError::InvalidAmount => "invalid amount",
            BridgeError::OrderAlreadyExists => "order already exists",
            BridgeError::OrderNotFound => "order not found",
            BridgeError::InvalidOrderStatus => "invalid order status",
            BridgeError::MinAmountOutNotMet => "min amount out not met",
            BridgeError::FeeTierConfigInvalid => "fee tier config invalid",
            BridgeError::ArithmeticOverflow => "arithmetic overflow",
            BridgeError::InsufficientVaultBalance => "insufficient vault balance",
            BridgeError::TransferFailed => "transfer failed",
            BridgeError::NotFound => "not found",
        }
    }
}

} // verus!
