use vstd::prelude::*;

verus! {

/// The closed error taxonomy of the vault. Every rejected request leaves the
/// ledger exactly as it was.
#[derive(Clone, Copy, Debug, PartialEq, Eq, Structural)]
pub enum VaultError {
    /// Identity or derivation mismatch: a supplied address does not re-derive
    /// from the caller's identity and the stored bumps.
    Unauthorized,
    /// A metadata record already exists at the state address.
    AlreadyInitialized,
    /// The operation names a state address holding no metadata record.
    NotFound,
    /// The requested amount is zero or exceeds the available balance.
    InsufficientFunds,
}

} // verus!
