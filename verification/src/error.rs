//! The failures an escrow operation reports.
use vstd::prelude::*;
use crate::ledger::LedgerError;

verus! {

/// Why the escrow refused an operation.
#[derive(Clone, Copy, Debug, PartialEq, Eq, Structural)]
pub enum EscrowError {
    /// The signer is not the identity the record names.
    Unauthorised,
    /// A supplied asset identifier differs from the one in the record.
    IncorrectMint,
    /// A supplied address differs from the derived or configured one.
    IncorrectAddress,
    /// Settlement was attempted after the deadline.
    Expired,
    /// The fee arithmetic overflowed, underflowed or divided by zero.
    Overflow,
}

/// Why an operation failed: the escrow refused it, or the ledger refused
/// one of its steps.
#[derive(Clone, Copy, Debug, PartialEq, Eq, Structural)]
pub enum Failure {
    /// A check of the escrow's own failed.
    Escrow(EscrowError),
    /// The ledger refused a step; its reason is passed on unchanged.
    Ledger(LedgerError),
}

/// The result of a run of ledger steps, as the result of an operation.
pub open spec fn lifted<T>(r: Result<T, LedgerError>) -> Result<T, Failure> {
    match r {
        Ok(value) => Ok(value),
        Err(e) => Err(Failure::Ledger(e)),
    }
}

impl EscrowError {
    /// The message that goes with the error.
    pub fn message(&self) -> (r: &'static str)
        ensures
            r@ == (match *self {
                EscrowError::Unauthorised => "Unauthorised"@,
                EscrowError::IncorrectMint => "Incorrect mint address"@,
                EscrowError::IncorrectAddress => "Incorrect account address"@,
                EscrowError::Expired => "Expiry date has elapsed"@,
                EscrowError::Overflow => "Fee amount overflow"@,
            }),
    {
        match self {
            EscrowError::Unauthorised => "Unauthorised",
            EscrowError::IncorrectMint => "Incorrect mint address",
            EscrowError::IncorrectAddress => "Incorrect account address",
            EscrowError::Expired => "Expiry date has elapsed",
            EscrowError::Overflow => "Fee amount overflow",
        }
    }
}

} // verus!
