//! The reasons for which a withdrawal is refused.

use vstd::prelude::*;

verus! {

/// Why a withdrawal was aborted. An aborted withdrawal changes nothing.
#[derive(Clone, Copy, Debug, PartialEq, Eq, Structural, Hash)]
pub enum PaymentStreamingError {
    /// No stream is stored under the given identifier.
    StreamNotFound,
    /// The caller does not act for the stream's recipient.
    Unauthorized,
    /// The stream has been closed.
    StreamNotActive,
    /// More was asked for than has unlocked and is not yet paid out.
    InsufficientFunds,
    /// An amount that the schedule yields does not fit the amount type.
    ArithmeticError,
    /// The amount asked for is zero or negative, and not above what is
    /// available.
    InvalidAmount,
}

} // verus!
