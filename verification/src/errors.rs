use vstd::prelude::*;

verus! {

/// The field that a creation or pledge request was rejected on.
#[derive(Clone, Copy, Debug, PartialEq, Eq, Structural)]
pub enum Field {
    Name,
    Goal,
    InitialAmount,
    StartTime,
    EndTime,
    IncomingToken,
    OutgoingToken,
    Owner,
    Amount,
}

/// Every operation of the store either commits in full or aborts with one of
/// these; an aborted operation leaves committed state untouched.
#[derive(Clone, Copy, Debug, PartialEq, Eq, Structural)]
pub enum Error {
    /// A malformed field-level input, naming the offending field.
    Validation(Field),
    /// Unknown campaign, or unknown contributor of a known campaign.
    NotFound,
    /// A non-owner calling an owner-only operation.
    Unauthorized,
    /// A state-machine violation: pledging after expiry, a second withdraw,
    /// a conflicting transfer already outstanding.
    InvalidTransition,
    /// Unpledging or refunding more than the recorded balance.
    InsufficientBalance,
    /// The escrow reported a failed outbound transfer; the ledger was rolled back.
    TransferFailed,
    /// The inbound gateway could not decode a message; the whole transfer fails.
    MessageParseError,
}

} // verus!
