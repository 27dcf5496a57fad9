use vstd::prelude::*;

verus! {

/// The ways an operation on the deposit ledger can fail. Every failure aborts
/// the whole call: the store is left exactly as it was.
#[derive(Debug, PartialEq)]
pub enum ContractError {
    /// Reserved; no current flow returns it.
    Unauthorized {},
    /// A withdrawal asked for more than the recorded balance.
    InsufficientBalance {},
    /// A withdrawal named a depositor/asset pair with no deposit history.
    NoRecord {},
    /// A fungible withdrawal came before the record's time-lock expired.
    StakeDurationNotPassed {},
    /// A non-fungible withdrawal was asked for while the ledger's own address
    /// is not the on-chain owner of the token.
    NoCustody { token_id: String },
    /// The ledger record's owner does not match the verified on-chain owner.
    InvalidOwner {},
    /// A token-contract callback carried a payload that is not a known hook.
    InvalidHookPayload {},
    /// A checked addition on a balance or counter would have wrapped.
    ArithmeticOverflow {},
    /// A checked subtraction on a counter would have gone below zero.
    ArithmeticUnderflow {},
}

} // verus!
