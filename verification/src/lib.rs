//! A token-sale escrow engine.
//!
//! A seller lists a fixed supply of an asset at a fixed unit price; buyers
//! purchase against that supply inside a time window; the payment for each
//! purchase is split between the seller and a platform fee recipient. The
//! escrowed supply is held in a vault that only the engine's own custody
//! authority can move, and every multi-party money movement is all-or-nothing.

pub mod errors;
pub mod ledger;
pub mod sale;
pub mod payment;
pub mod engine;
