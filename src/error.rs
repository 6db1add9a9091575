//! Errors of the trading ledger.
use vstd::prelude::*;

verus! {

/// Why a ledger operation was refused.
#[derive(Clone, Copy, Debug, PartialEq, Eq, Structural)]
pub enum Error {
    /// Not enough shares, or an amount that does not cover its fee.
    Insufficient,
    /// The history is exhausted, or a quantity does not fit its type.
    Overflow,
}

impl Error {
    /// The name of the error.
    pub fn to_string(&self) -> (r: String)
        ensures
            r@ == (match self {
                Error::Insufficient => "Insufficient"@,
                Error::Overflow => "Overflow"@,
            }),
    {
        match self {
            Error::Insufficient => String::from_str("Insufficient"),
            Error::Overflow => String::from_str("Overflow"),
        }
    }
}

} // verus!
