//! The errors of wallet operations.
use vstd::prelude::*;
use crate::types::{AccountId, BlockHeight, TransparentAddress, TxId};

verus! {

/// What can go wrong in a wallet operation.
#[derive(Debug)]
pub enum Error {
    /// No account has the given id.
    AccountUnknown(AccountId),
    /// The account has no viewing key.
    ViewingKeyNotFound(AccountId),
    /// A memo could not be decoded.
    MemoDecryption(String),
    /// A key could not be derived.
    KeyDerivation(String),
    /// The account was not derived by ZIP 32 from a seed.
    UnknownZip32Derivation,
    /// An address could not be generated.
    AddressGeneration(String),
    /// A seed must be between 32 and 252 bytes in length.
    InvalidSeedLength,
    /// The account index is out of range.
    AccountOutOfRange,
    /// No transaction with the given id is in the transaction table.
    TransactionNotFound(TxId),
    /// No note matches.
    NoteNotFound,
    /// The transaction locator map holds a conflicting entry.
    ConflictingTxLocator,
    /// Reading or writing failed.
    Io(String),
    /// Stored data is inconsistent.
    CorruptedData(String),
    /// Processing an account failed because its keys could not be derived.
    BadAccountData(String),
    /// Blocks were not given in sequence.
    NonSequentialBlocks,
    /// A scan range is invalid.
    InvalidScanRange(BlockHeight, BlockHeight, String),
    /// A note commitment tree operation failed.
    ShardTree(String),
    /// A balance computation overflowed.
    Balance(String),
    /// Another failure.
    Other(String),
    /// A field that is required is missing.
    Missing(String),
    /// Orchard support is not available.
    OrchardNotEnabled,
    /// The address belongs to no account of the wallet.
    AddressNotRecognized(TransparentAddress),
    /// A rewind was requested below the height that can be rewound to.
    RequestedRewindInvalid(BlockHeight, BlockHeight),
    /// The gap limit was reached for the account.
    ReachedGapLimit(AccountId, u32),
}

/// The error carries the given message.
pub open spec fn message_is(s: String, m: Seq<char>) -> bool {
    s@ == m
}

} // verus!
