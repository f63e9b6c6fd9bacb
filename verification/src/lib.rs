//! Settlement core of a cross-chain token bridge: a verified state machine
//! covering authority management, a tiered fee schedule, the order lifecycle
//! (create, two-phase fill, revert) and vault/fee accounting.
//!
//! Every operation is atomic: it either commits all of its effects and
//! returns `Ok(())`, or reports exactly one [`errors::BridgeError`] and
//! leaves the state untouched.

pub mod admin;
pub mod decimal;
pub mod errors;
pub mod fees;
pub mod ids;
pub mod laws;
pub mod orch;
pub mod order;
pub mod orders;
pub mod state;
pub mod vault;
pub mod vault_ops;
