//! Failures of the pricing curve and of the margin engine.

use vstd::prelude::*;

verus! {

/// The four families of failure.
#[derive(Clone, Copy, Debug, PartialEq, Eq, Structural)]
pub enum ErrorKind {
    /// The caller may not perform the operation.
    Authorization,
    /// Reserve or margin arithmetic left the range of the amounts.
    Arithmetic,
    /// The exchange between engine and curve was not the expected one.
    Protocol,
    /// The stored state does not allow the operation.
    Precondition,
}

/// Why an operation was abandoned. Every failure leaves the store it was given
/// exactly as it found it.
#[derive(Clone, Copy, Debug, PartialEq, Eq, Structural)]
pub enum ContractError {
    /// The sender is neither the owner nor the collateral asset, whichever the
    /// operation asks for.
    Unauthorized,
    /// A sum or a quotient does not fit in an amount.
    Overflow,
    /// A difference would be negative.
    Underflow,
    /// A quotient has a zero divisor.
    DivideByZero,
    /// A record that the operation reads was never stored.
    NotFound,
    /// The position to close does not exist.
    PositionNotFound,
    /// An operation that needs a trade was asked for while another still
    /// waits for its own.
    SwapPending,
    /// A swap result arrived while no operation of its kind was waiting.
    NoPendingSwap,
    /// A swap result carries a continuation id that the engine never issued.
    UnknownReplyId { id: u64 },
    /// The swap behind the continuation id failed in the curve.
    SwapFailed { id: u64 },
    /// A swap result lacks the event or the amounts that the curve emits.
    MalformedReply,
    /// A deposit notification does not carry an open-position request.
    InvalidHookMessage,
}

impl ContractError {
    /// The family the failure belongs to.
    pub open spec fn spec_kind(self) -> ErrorKind {
        match self {
            ContractError::Unauthorized => ErrorKind::Authorization,
            ContractError::Overflow => ErrorKind::Arithmetic,
            ContractError::Underflow => ErrorKind::Arithmetic,
            ContractError::DivideByZero => ErrorKind::Arithmetic,
            ContractError::NotFound => ErrorKind::Precondition,
            ContractError::PositionNotFound => ErrorKind::Precondition,
            ContractError::SwapPending => ErrorKind::Protocol,
            ContractError::NoPendingSwap => ErrorKind::Protocol,
            ContractError::UnknownReplyId { .. } => ErrorKind::Protocol,
            ContractError::SwapFailed { .. } => ErrorKind::Protocol,
            ContractError::MalformedReply => ErrorKind::Protocol,
            ContractError::InvalidHookMessage => ErrorKind::Protocol,
        }
    }

    /// The family the failure belongs to.
    #[verifier::when_used_as_spec(spec_kind)]
    pub fn kind(self) -> (kind: ErrorKind)
        ensures
            kind == self.spec_kind(),
    {
        match self {
            ContractError::Unauthorized => ErrorKind::Authorization,
            ContractError::Overflow => ErrorKind::Arithmetic,
            ContractError::Underflow => ErrorKind::Arithmetic,
            ContractError::DivideByZero => ErrorKind::Arithmetic,
            ContractError::NotFound => ErrorKind::Precondition,
            ContractError::PositionNotFound => ErrorKind::Precondition,
            ContractError::SwapPending => ErrorKind::Protocol,
            ContractError::NoPendingSwap => ErrorKind::Protocol,
            ContractError::UnknownReplyId { .. } => ErrorKind::Protocol,
            ContractError::SwapFailed { .. } => ErrorKind::Protocol,
            ContractError::MalformedReply => ErrorKind::Protocol,
            ContractError::InvalidHookMessage => ErrorKind::Protocol,
        }
    }
}

} // verus!
