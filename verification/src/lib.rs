//! A proof-of-stake ledger core: a stake-weighted consensus engine, a
//! neuron-based staking registry, and a weighted-voting governance module.
//!
//! The crate keeps all chain state in plain in-memory structures; callers
//! own persistence, transport and key generation.

pub mod api;
pub mod clock;
pub mod codec;
pub mod consensus;
pub mod crypto;
pub mod errors;
pub mod governance;
pub mod hexcode;
pub mod math;
pub mod merkle;
pub mod nervous;
pub mod staking;
pub mod types;
