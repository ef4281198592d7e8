//! The errors of the ledger's operations.

use vstd::prelude::*;

verus! {

/// Why an operation was refused. A refused operation changes nothing.
#[derive(Debug, Clone, Copy, PartialEq, Eq, Structural)]
pub enum AppError {
    /// No account has this id.
    AccountNotExists(u32),
    /// The account (first) has no transaction with this id (second).
    TransactionNotExists(u32, u32),
    /// The amount is zero or negative.
    ZeroValueTransaction,
    /// The balance is smaller than the amount to take from it.
    Overdraft,
    /// Sender and receiver are the same account.
    SelfTransfer,
    /// The ledger holds no account.
    EmptyDb,
    /// The snapshot has no content.
    EmptyBackupFile,
    /// The snapshot's content is no ledger.
    InvalidBackupFile,
    /// The snapshot could not be read.
    BackupLoadFile,
}

impl AppError {
    /// Whether the error says that something asked for does not exist.
    pub open spec fn is_not_found(self) -> bool {
        self is AccountNotExists || self is TransactionNotExists
    }

    /// The HTTP status under which the error is reported: 404 where something
    /// asked for does not exist, 400 for every other refusal.
    pub fn status_code(&self) -> (code: u16)
        ensures
            code == if self.is_not_found() { 404u16 } else { 400u16 },
    {
        match self {
            AppError::AccountNotExists(_) => 404,
            AppError::TransactionNotExists(_, _) => 404,
            _ => 400,
        }
    }
}

} // verus!
