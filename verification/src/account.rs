use vstd::prelude::*;

verus! {

/// Identifies an on-chain account (a Stellar address) inside the contract
/// state. The host's addresses are mapped one-to-one onto these identifiers,
/// so two accounts are the same exactly when their identifiers are equal.
pub type AccountId = u64;

} // verus!
