use vstd::prelude::*;

verus! {

/// The vault's metadata record: the two disambiguation bytes stored at
/// initialization. Every later operation re-derives the state and vault
/// addresses from these exact values and rejects the request on mismatch.
/// Once written, the record is never mutated; it is deleted on closure.
#[derive(Clone, Copy, Debug, PartialEq, Eq, Structural)]
pub struct VaultState {
    /// Re-derives the vault address (the escrowed balance).
    pub vault_bump: u8,
    /// Re-derives the state address (this record's own home).
    pub state_bump: u8,
}

} // verus!
