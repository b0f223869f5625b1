//! The rejection reasons of the ledger.
//!
//! Every check is local and fatal: the first failing check aborts the whole
//! operation with one of these reasons and no state change.

use vstd::prelude::*;

verus! {

/// The inventory tier a limit or capacity check failed at.
#[derive(Clone, Copy, Debug, PartialEq, Eq, Structural)]
pub enum Tier {
    Stage,
    Type,
    Event,
}

/// Why an operation was rejected.
#[derive(Clone, Copy, Debug, PartialEq, Eq, Structural)]
pub enum TicketingError {
    /// The event id names no event record.
    EventNotFound,
    /// The ticket type id names no record under the event.
    TypeNotFound,
    /// The stage id names no record under the ticket type.
    StageNotFound,
    /// The stage is not active.
    StageInactive,
    /// The stage's sale window has not opened yet.
    NotStarted,
    /// The stage's sale window has closed.
    Ended,
    /// The stage is whitelist-gated and the caller is not listed.
    NotWhitelisted,
    /// The purchase quantity is zero.
    InvalidQuantity,
    /// The caller's counters would exceed the tier's per-user cap.
    LimitExceeded(Tier),
    /// The tier's mint count would exceed its ceiling.
    SoldOut(Tier),
    /// A direct payment matches no price entry or not the exact total.
    PaymentMismatch,
    /// The swap output matches no price entry of the stage.
    SwapTokenInvalid,
    /// The swap output is below the required total.
    InsufficientSwapOutput,
    /// The attestation payload differs from the expected concatenation.
    PayloadInvalid,
    /// The attestation signature does not verify.
    SignatureInvalid,
    /// An attestation signature is required but missing.
    MissingSignature,
    /// An attestation payload is required but missing.
    MissingPayload,
    /// Tickets can only be minted to end-user wallets.
    OnlyUserAccountsAllowed,
    /// The fee rate is not under the basis-point denominator.
    InvalidFee,
    /// The attached issuance payment is not the exact issue cost.
    InvalidIssuePayment,
    /// The event id has been used already.
    EventIdInUse,
    /// The ticket type id has been created already.
    TypeIdInUse,
    /// The stage id has been created already.
    StageIdInUse,
    /// The event has no issued token.
    TokenMissing,
}

} // verus!
