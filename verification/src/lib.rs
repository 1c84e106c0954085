//! A custodial balance vault with derived-address authority.
//!
//! Each owner gets a pair of deterministically derived addresses: a state
//! address holding a small metadata record (the two derivation bumps) and a
//! vault address holding the escrowed balance. Every operation re-derives
//! both addresses from the caller-supplied owner identity and the stored
//! bumps, and rejects the request on any mismatch; that re-derivation check
//! is the only authority under which value ever leaves the vault.

pub mod address;
pub mod errors;
pub mod laws;
pub mod ledger;
pub mod ops;
pub mod pda;
pub mod state;
