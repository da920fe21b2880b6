use vstd::prelude::*;

verus! {

/// Why a record, or a step of applying it, was rejected.
#[derive(Debug, PartialEq)]
pub enum Error {
    /// A deposit or withdrawal, or the target of a dispute, carries no amount.
    MissingAmount(u32),
    /// The sum of the available and the held funds leaves the range of `u128`.
    TotalOverflow,
    /// No stored transaction has the id that the record refers to.
    TxNotFound,
    /// The client's account is locked.
    AccountLocked(u16),
    /// A resolve or chargeback refers to a transaction that is not disputed.
    TxNotDisputed(u32),
    /// A dispute refers to a transaction that is disputed already.
    TxAlreadyDisputed(u32),
    /// The text is no amount: it is no decimal number, is negative, has more
    /// than four fractional digits, or is too large.
    InvalidAmount(String),
    /// Adding to the available funds leaves the range of `u128`.
    MaxAvailableOverflow,
    /// Adding to the held funds leaves the range of `u128`.
    MaxHeldOverflow,
    /// More is taken from the available funds than they hold.
    MinAvailableUnderflow,
    /// More is taken from the held funds than they hold.
    MinHeldUnderflow,
    /// An account that was just inserted could not be found again.
    UnexpectedMissingAccount(u16),
    /// A dispute refers to a transaction that is no deposit.
    InvalidDispute(u32),
}

impl Clone for Error {
    fn clone(&self) -> (copy: Self)
        ensures
            copy == *self,
    {
        match self {
            Error::MissingAmount(id) => Error::MissingAmount(*id),
            Error::TotalOverflow => Error::TotalOverflow,
            Error::TxNotFound => Error::TxNotFound,
            Error::AccountLocked(client) => Error::AccountLocked(*client),
            Error::TxNotDisputed(id) => Error::TxNotDisputed(*id),
            Error::TxAlreadyDisputed(id) => Error::TxAlreadyDisputed(*id),
            Error::InvalidAmount(text) => Error::InvalidAmount(text.clone()),
            Error::MaxAvailableOverflow => Error::MaxAvailableOverflow,
            Error::MaxHeldOverflow => Error::MaxHeldOverflow,
            Error::MinAvailableUnderflow => Error::MinAvailableUnderflow,
            Error::MinHeldUnderflow => Error::MinHeldUnderflow,
            Error::UnexpectedMissingAccount(client) => Error::UnexpectedMissingAccount(*client),
            Error::InvalidDispute(id) => Error::InvalidDispute(*id),
        }
    }
}

} // verus!
