use vstd::prelude::*;

verus! {

/// Every failure the core reports, as a typed value.
#[derive(Clone, Copy, Debug, PartialEq, Eq, Structural)]
pub enum CoreError {
    /// The local permission pre-check refused the action.
    PermissionDenied,
    /// The sender's balance does not cover the amount.
    InsufficientBalance,
    /// The object does not exist on the network.
    NoSuchData,
    /// The object is not in the local cache: it must be fetched first.
    NotCached,
    /// The cached replica cannot take this change locally: its CRDT list may
    /// be too deep for another identifier, or its depth is unknown because it
    /// was fetched rather than built here.
    NoRoom,
    /// The operation is not valid for the object or the ledger state.
    InvalidOperation,
    /// The requested entry, owner or permission index does not exist.
    NoSuchEntry,
    /// The object has no valid current owner.
    InvalidOwners,
    /// A transport-level failure.
    NetworkError,
    /// No quorum of validations came in time; the transfer stays initiated, to resume.
    ValidationTimedOut,
    /// The network answered with a response of the wrong kind.
    UnexpectedResponse,
    /// A transfer is already initiated and not yet registered.
    TransferPending,
    /// There is no initiated transfer to work on.
    NoPendingTransfer,
    /// A credit would take the balance past the largest representable amount.
    BalanceOverflow,
}

} // verus!
