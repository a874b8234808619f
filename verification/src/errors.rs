//! The error taxonomy of the marketplace engine.
//!
//! Every failed operation aborts with no effect on the ledger and reports one
//! of these kinds; there is no generic failure.

use vstd::prelude::*;

verus! {

/// The error kinds an operation can abort with.
#[derive(Clone, Copy, PartialEq, Eq, Structural, Debug)]
pub enum MarketplaceError {
    /// The signer is not authorized to perform this action.
    Unauthorized,
    /// The account to initialize already exists.
    AlreadyInUse,
    /// A price, fee or balance bound was violated.
    InvalidAmount,
    /// The record is not in a state that permits the operation.
    InvalidState,
    /// An account is owned by the wrong party.
    InvalidOwner,
    /// An expiry lies in the past on creation, or a cancellation was
    /// requested while the record is not yet cancellable.
    InvalidExpiry,
    /// Fewer creator accounts were supplied than the asset's metadata names.
    MissingCreator,
    /// The operation is not allowed.
    NotAllowed,
    /// An arithmetic bound was exceeded.
    NumericalOverflow,
    /// A required account is absent or malformed.
    InvalidAccountInput,
    /// A cross-checked account key does not match its expected derivation.
    InvalidPubkey,
    /// A required account exists but is not initialized.
    Uninitialized,
    /// The buyer's asset-receipt account has a delegate set.
    BuyerATACannotHaveDelegate,
    /// The seller's payment-receipt account has a delegate set.
    SellerATACannotHaveDelegate,
    /// The supplied discount proof is invalid or names an ineligible
    /// collection.
    InvalidDiscountAccount,
}

} // verus!
