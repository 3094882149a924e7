//! The errors an operation can surface.
//!
//! Every error aborts the whole call: an operation that returns an error
//! leaves the contract state exactly as it was before the call.

use vstd::prelude::*;

verus! {

/// Why an operation was refused.
#[derive(Clone, Copy, Debug, PartialEq, Eq, Structural)]
pub enum TokenError {
    /// The sender's balance does not cover the requested debit.
    InsufficientBalance,
    /// The attached payment does not cover the storage cost of registration.
    InsufficientStorageDeposit,
    /// A transfer needs a nonzero attached payment as an anti-spam fee.
    InsufficientAttachedPayment,
    /// The receiving account of a transfer or mint is not registered.
    ReceiverNotRegistered,
    /// An account with a nonzero balance cannot be unregistered unforced.
    AccountHasBalance,
    /// A transfer of zero tokens is refused.
    ZeroAmount,
    /// Sender and receiver of a transfer must differ.
    SelfTransfer,
    /// Only the owner account may mint.
    NotAuthorized,
    /// Arithmetic left the unsigned 128-bit range.
    Overflow,
    /// The contract state exists already and cannot be initialized twice.
    AlreadyInitialized,
}

} // verus!
