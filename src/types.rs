use vstd::prelude::*;

verus! {

/// A general failure carrying a message.
#[derive(Clone, Debug, PartialEq, Eq)]
pub enum Error {
    Custom(String),
}

/// A standard the ledger supports.
#[derive(Clone, Debug, PartialEq, Eq)]
pub struct Standard {
    pub name: String,
    pub url: String,
}

/// A metadata value.
#[derive(Clone, Debug, PartialEq, Eq)]
pub enum MetaValue {
    Text(String),
    Nat(u64),
    Blob(Vec<u8>),
}

/// Free-form key/value metadata, in insertion order.
#[derive(Clone, Debug, PartialEq, Eq)]
pub struct Metadata(pub Vec<(String, MetaValue)>);

/// Why one item of a transfer batch failed.
#[derive(Clone, Debug, PartialEq, Eq)]
pub enum TransferError {
    NonExistingTokenId,
    InvalidRecipient,
    Unauthorized,
    TooOld,
    CreatedInFuture { ledger_time: u64 },
    Duplicate { duplicate_of: u64 },
    GenericError { error_code: u64, message: String },
    GenericBatchError { error_code: u64, message: String },
}

/// Why one item of a transfer-from batch failed.
#[derive(Clone, Debug, PartialEq, Eq)]
pub enum TransferFromError {
    NonExistingTokenId,
    InvalidRecipient,
    Unauthorized,
    TooOld,
    CreatedInFuture { ledger_time: u64 },
    Duplicate { duplicate_of: u64 },
    GenericError { error_code: u64, message: String },
    GenericBatchError { error_code: u64, message: String },
}

/// Why a mint failed.
#[derive(Clone, Debug, PartialEq, Eq)]
pub enum MintError {
    NonExistingTokenId,
    SupplyCapReached,
    GenericBatchError { error_code: u64, message: String },
}

/// Why one token-scoped approval failed.
#[derive(Clone, Debug, PartialEq, Eq)]
pub enum ApproveTokenError {
    InvalidSpender,
    Unauthorized,
    NonExistingTokenId,
    TooOld,
    CreatedInFuture { ledger_time: u64 },
    GenericError { error_code: u64, message: String },
    GenericBatchError { error_code: u64, message: String },
}

/// Why one collection-scoped approval failed.
#[derive(Clone, Debug, PartialEq, Eq)]
pub enum ApproveCollectionError {
    InvalidSpender,
    TooOld,
    CreatedInFuture { ledger_time: u64 },
    GenericError { error_code: u64, message: String },
    GenericBatchError { error_code: u64, message: String },
}

/// Why one token-scoped revocation failed.
#[derive(Clone, Debug, PartialEq, Eq)]
pub enum RevokeTokenApprovalError {
    ApprovalDoesNotExist,
    Unauthorized,
    NonExistingTokenId,
    TooOld,
    CreatedInFuture { ledger_time: u64 },
    GenericError { error_code: u64, message: String },
    GenericBatchError { error_code: u64, message: String },
}

/// Why one collection-scoped revocation failed.
#[derive(Clone, Debug, PartialEq, Eq)]
pub enum RevokeCollectionApprovalError {
    ApprovalDoesNotExist,
    TooOld,
    CreatedInFuture { ledger_time: u64 },
    GenericError { error_code: u64, message: String },
    GenericBatchError { error_code: u64, message: String },
}

/// The outcome of the time and memo checks on one batch item.
#[derive(Clone, Copy, Debug, PartialEq, Eq, Structural)]
pub enum ItemCheck {
    Valid,
    TooOld,
    CreatedInFuture,
    MemoTooLong,
}

} // verus!
