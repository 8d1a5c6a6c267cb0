//! Error taxonomy: codec-level errors and the TURN error kinds with their
//! numeric response codes.

use vstd::prelude::*;

verus! {

/// A failure while reading or building STUN wire data.
#[derive(Debug, Clone, PartialEq, Eq)]
pub enum StunError {
    InvalidMagicCookie,
    InvalidMessageLength,
    MessageTooShort,
    InvalidMessageType,
    InvalidAttribute,
    UnknownAttribute(u16),
    InvalidTransactionId,
    ParseError(String),
}

/// A TURN-level failure, each kind mapping to one numeric error code.
#[derive(Debug, Clone, PartialEq, Eq)]
pub enum TurnError {
    BadRequest,
    Unauthorized,
    UnknownAttribute,
    StaleNonce,
    AllocationMismatch,
    WrongCredentials,
    UnsupportedTransportProtocol,
    AllocationQuotaReached,
    InsufficientCapacity,
    StunError(StunError),
}

/// The numeric TURN error code of each error kind.
pub open spec fn spec_error_code(e: TurnError) -> u16 {
    match e {
        TurnError::BadRequest => 400,
        TurnError::Unauthorized => 401,
        TurnError::UnknownAttribute => 420,
        TurnError::AllocationMismatch => 437,
        TurnError::StaleNonce => 438,
        TurnError::WrongCredentials => 441,
        TurnError::UnsupportedTransportProtocol => 442,
        TurnError::AllocationQuotaReached => 486,
        TurnError::InsufficientCapacity => 508,
        TurnError::StunError(_) => 400,
    }
}

impl TurnError {
    pub fn error_code(&self) -> (r: u16)
        ensures
            r == spec_error_code(*self),
    {
        match self {
            TurnError::BadRequest => 400,
            TurnError::Unauthorized => 401,
            TurnError::UnknownAttribute => 420,
            TurnError::AllocationMismatch => 437,
            TurnError::StaleNonce => 438,
            TurnError::WrongCredentials => 441,
            TurnError::UnsupportedTransportProtocol => 442,
            TurnError::AllocationQuotaReached => 486,
            TurnError::InsufficientCapacity => 508,
            TurnError::StunError(_) => 400,
        }
    }
}

} // verus!
