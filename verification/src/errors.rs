use vstd::prelude::*;

verus! {

/// Why an entry point rejected a call. Every failure aborts the whole call
/// with no persisted side effect; the kind says which check failed.
#[derive(Clone, Copy, Debug, PartialEq, Eq, Structural)]
pub enum Error {
    /// No giveaway or help request is stored under the given id.
    NotFound,
    /// The operation was attempted outside its legal state.
    InvalidStatus,
    /// Winner selection was attempted while entries are still open.
    StillActive,
    /// An entry was attempted after the giveaway's deadline.
    AlreadyEnded,
    /// Winner selection was attempted on an empty participant pool.
    NoParticipants,
    /// The participant has already entered this giveaway.
    AlreadyEntered,
    /// The caller is not the account the operation is reserved for.
    NotAuthorized,
    /// The caller is not the creator of the record.
    NotCreator,
    /// The caller is not the stored admin, or no admin is stored yet.
    NotAdmin,
    /// A donation or withdrawal amount is not positive, or a refund was
    /// claimed with nothing left to refund.
    InvalidAmount,
    /// A checked addition on fund accounting or a counter would overflow.
    ArithmeticOverflow,
    /// An admin is already stored.
    AlreadyInitialized,
    /// The operation is blocked by the emergency pause flag.
    Paused,
    /// The token ledger refused the transfer for insufficient balance.
    TransferFailed,
}

} // verus!
