//! Why an operation was refused.

use vstd::prelude::*;

verus! {

/// The reason an operation stopped. Every reason aborts the whole invocation:
/// nothing is written once one of them has been found.
#[derive(Clone, Copy, Debug, PartialEq, Eq, Structural)]
pub enum MatcherError {
    /// The instruction is empty or starts with a tag that names no operation.
    UnrecognizedOperation,
    /// The payload is shorter than the operation requires.
    MalformedInput,
    /// Initialize was asked for a matcher kind other than credibility.
    WrongMatcherKind,
    /// Fewer account records were passed than the operation reads.
    NotEnoughAccounts,
    /// The first account of a Match does not carry a proven signature.
    MissingSignature,
    /// The signer of a Match is not the authority stored in the record.
    AuthorityMismatch,
    /// The record does not carry the format's magic and version.
    Uninitialized,
    /// Initialize was asked for a record that already carries them.
    AlreadyInitialized,
    /// The oracle price is zero.
    ZeroOraclePrice,
    /// The trade is larger than the fill cap.
    FillLimitExceeded,
    /// The trade would take the inventory past its cap, or past what a signed
    /// 128-bit field can hold.
    InventoryLimitExceeded,
    /// The record's spread ceiling is zero, so no spread of at least one basis
    /// point lies under it.
    EmptySpreadRange,
    /// The matcher record or the ledger record is shorter than its layout.
    StorageTooSmall,
}

} // verus!
