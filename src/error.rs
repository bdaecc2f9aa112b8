use vstd::prelude::*;

verus! {

/// Every way an operation of the staking engine can be refused.
#[derive(Clone, Copy, Debug, PartialEq, Eq, Structural)]
pub enum Error {
    Unauthorized,
    BelowMinimum,
    NoStake,
    InsufficientStake,
    CooldownNotMet,
    NoUnstakeRequest,
    AccountSlashed,
    TransferFailed,
    NotInitialised,
    AlreadyInitialised,
    Overflow,
}

} // verus!
