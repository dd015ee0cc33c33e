//! The failures of the engine, each with the class it belongs to.

use vstd::prelude::*;

verus! {

/// The classes of failure.
#[derive(Clone, Copy, Debug, PartialEq, Eq, Structural)]
pub enum ErrorKind {
    /// A market or a position is not in the ledger.
    NotFound,
    /// The request does not fit the state that the record is in: what it
    /// asks for has already happened, or cannot happen yet or any more.
    Conflict,
    /// The request itself is malformed.
    InvalidInput,
    /// The caller is not the authority of the market.
    Unauthorized,
    /// An amount would pass the 64-bit bound.
    Overflow,
    /// A collaborator outside the engine failed.
    DependencyFailure,
}

/// Why an operation of the engine was refused. Every refusal leaves the
/// ledger as it was.
#[derive(Clone, Copy, Debug, PartialEq, Eq, Structural)]
pub enum EngineError {
    /// No market is stored under the identifier.
    MarketNotFound,
    /// No position of the market is stored under the identifier.
    PositionNotFound,
    /// A market is already stored under the identifier.
    AlreadyExists,
    /// The market takes no more stakes: it has been resolved.
    MarketResolved,
    /// The market has been resolved before.
    AlreadyResolved,
    /// The market pays nothing out yet: it has not been resolved.
    MarketNotResolved,
    /// The position has been paid out before.
    AlreadyClaimed,
    /// The amount of a stake is zero.
    InvalidAmount,
    /// The byte that is to name a side names neither.
    InvalidSide,
    /// The caller is not the market's admin.
    Unauthorized,
    /// The stake would take the pool of its side past the 64-bit bound.
    Overflow,
    /// The transfer gate did not move the value.
    TransferFailed,
}

impl EngineError {
    /// The class of this failure.
    pub open spec fn class(self) -> ErrorKind {
        match self {
            EngineError::MarketNotFound | EngineError::PositionNotFound => ErrorKind::NotFound,
            EngineError::AlreadyExists
            | EngineError::MarketResolved
            | EngineError::AlreadyResolved
            | EngineError::MarketNotResolved
            | EngineError::AlreadyClaimed => ErrorKind::Conflict,
            EngineError::InvalidAmount | EngineError::InvalidSide => ErrorKind::InvalidInput,
            EngineError::Unauthorized => ErrorKind::Unauthorized,
            EngineError::Overflow => ErrorKind::Overflow,
            EngineError::TransferFailed => ErrorKind::DependencyFailure,
        }
    }

    /// The class of this failure.
    pub fn kind(&self) -> (kind: ErrorKind)
        ensures
            kind == self.class(),
    {
        match self {
            EngineError::MarketNotFound | EngineError::PositionNotFound => ErrorKind::NotFound,
            EngineError::AlreadyExists
            | EngineError::MarketResolved
            | EngineError::AlreadyResolved
            | EngineError::MarketNotResolved
            | EngineError::AlreadyClaimed => ErrorKind::Conflict,
            EngineError::InvalidAmount | EngineError::InvalidSide => ErrorKind::InvalidInput,
            EngineError::Unauthorized => ErrorKind::Unauthorized,
            EngineError::Overflow => ErrorKind::Overflow,
            EngineError::TransferFailed => ErrorKind::DependencyFailure,
        }
    }
}

} // verus!
