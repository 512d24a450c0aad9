use vstd::prelude::*;

verus! {

/// The failure kinds that the operations of this crate report.
///
/// Every validation failure is pure: an operation that returns an error
/// leaves all stored state exactly as it was.
#[derive(Clone, Copy, Debug, PartialEq, Eq, Structural)]
pub enum EscrowError {
    /// An escrow already exists for the given (session, payer) pair.
    DuplicateSession,
    /// The escrow is missing or its status does not admit the transition.
    InvalidState,
    /// The calling party has already confirmed this escrow.
    AlreadyConfirmed,
    /// Neither the deadline has passed nor have both parties confirmed.
    NotYetSettleable,
    /// Settlement was requested but the escrow is already settled or missing.
    AlreadySettled,
    /// A rating score outside the 1..=5 range.
    InvalidScore,
    /// A rating was filed against an escrow that is not released.
    PaymentNotReleased,
    /// A rating already exists for the given (session, rater) pair.
    DuplicateRating,
    /// The uniqueness registry already holds the given key.
    AlreadyClaimed,
    /// The caller is not the party the operation is reserved to.
    Unauthorized,
    /// The payer's ledger balance does not cover the requested amount.
    InsufficientFunds,
    /// The ledger could not move the funds (a balance would overflow).
    TransferFailed,
}

} // verus!
