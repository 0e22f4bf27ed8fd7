//! Anchoring of a permissioned ledger into the Bitcoin chain: agreement on the
//! latest anchoring transaction, classification of Bitcoin transactions, the
//! height-keyed chain of anchors, the anchoring configuration and the proofs
//! that bind a ledger block to an anchor.

pub mod api;
pub mod chain;
pub mod config;
pub mod digest;
pub mod quorum;
pub mod transactions;
