//! Transactions: the immutable records of an account's history, and the
//! requests and answers of the operations that write them.

use vstd::prelude::*;

verus! {

/// The kind of a transaction.
#[derive(Debug, Clone, Copy, PartialEq, Eq, Structural)]
pub enum Operation {
    Registration,
    Replenish,
    Withdraw,
    TransferIncrease,
    TransferDecrease,
}

impl Operation {
    /// Whether a transaction of this kind takes its amount from the balance.
    /// `Withdraw` and `TransferDecrease` do; every other kind adds it.
    pub open spec fn debits(self) -> bool {
        self == Operation::Withdraw || self == Operation::TransferDecrease
    }

    /// Tells a debit from a credit.
    pub fn is_debit(&self) -> (r: bool)
        ensures
            r == self.debits(),
    {
        match self {
            Operation::Withdraw => true,
            Operation::TransferDecrease => true,
            _ => false,
        }
    }
}

impl Default for Operation {
    fn default() -> (r: Self)
        ensures
            r == Operation::Registration,
    {
        Operation::Registration
    }
}

/// One entry of an account's history.
#[derive(Debug, Clone, Copy, PartialEq, Eq, Structural)]
pub struct Transaction {
    /// Position of the entry in its account's history, from 0.
    pub id: u32,
    pub operation: Operation,
    /// Balance before the operation.
    pub previous: i128,
    /// Amount moved by the operation.
    pub delta: i64,
    /// Balance after the operation.
    pub current: i128,
}

/// A transaction as a mathematical record.
pub struct TransactionView {
    pub id: nat,
    pub operation: Operation,
    pub previous: int,
    pub delta: int,
    pub current: int,
}

impl TransactionView {
    /// The entry that opens every history.
    pub open spec fn registration() -> TransactionView {
        TransactionView {
            id: 0,
            operation: Operation::Registration,
            previous: 0,
            delta: 0,
            current: 0,
        }
    }

    /// The balance that an operation of kind `operation` and amount `delta`
    /// leaves, starting from `previous`.
    pub open spec fn outcome(previous: int, delta: int, operation: Operation) -> int {
        if operation.debits() {
            previous - delta
        } else {
            previous + delta
        }
    }

    /// The entry that an operation of kind `operation` and amount `delta`
    /// writes at position `id` of a history whose balance is `previous`.
    pub open spec fn record(id: nat, operation: Operation, previous: int, delta: int)
        -> TransactionView {
        TransactionView {
            id,
            operation,
            previous,
            delta,
            current: Self::outcome(previous, delta, operation),
        }
    }

    /// Whether this entry may stand directly after `before` in a history: it
    /// starts from the balance `before` left, moves a positive amount in the
    /// direction of its kind, and leaves no negative balance.
    pub open spec fn extends(self, before: TransactionView) -> bool {
        &&& self.previous == before.current
        &&& self.delta > 0
        &&& self.current == Self::outcome(self.previous, self.delta, self.operation)
        &&& self.current >= 0
    }
}

impl View for Transaction {
    type V = TransactionView;

    open spec fn view(&self) -> TransactionView {
        TransactionView {
            id: self.id as nat,
            operation: self.operation,
            previous: self.previous as int,
            delta: self.delta as int,
            current: self.current as int,
        }
    }
}

impl Default for Transaction {
    /// The entry that opens every history.
    fn default() -> (t: Self)
        ensures
            t@ == TransactionView::registration(),
    {
        Transaction { id: 0, operation: Operation::default(), previous: 0, delta: 0, current: 0 }
    }
}

impl Transaction {
    pub fn new(id: u32, operation: Operation, previous: i128, delta: i64, current: i128) -> (t:
        Self)
        ensures
            t == (Transaction { id, operation, previous, delta, current }),
    {
        Self { id, operation, previous, delta, current }
    }
}

/// A request to change one account's balance.
#[derive(Debug, Clone, Copy, PartialEq, Eq, Structural)]
pub struct TransactionRequest {
    pub account_id: u32,
    pub transaction_value: i64,
}

impl TransactionRequest {
    pub fn new(account_id: u32, transaction_value: i64) -> (r: Self)
        ensures
            r == (TransactionRequest { account_id, transaction_value }),
    {
        Self { account_id, transaction_value }
    }
}

/// The answer to an operation on one account: the account, the entry that the
/// operation wrote, and the balance it left.
#[derive(Debug, Clone, Copy, PartialEq, Eq, Structural)]
pub struct TransactionResponse {
    pub account_id: u32,
    pub transaction_id: u32,
    pub balance: i128,
}

impl TransactionResponse {
    pub fn new(account_id: u32, transaction_id: u32, balance: i128) -> (r: Self)
        ensures
            r == (TransactionResponse { account_id, transaction_id, balance }),
    {
        Self { account_id, transaction_id, balance }
    }
}

/// A request to move `transfer_value` from one account to another.
#[derive(Debug, Clone, Copy, PartialEq, Eq, Structural)]
pub struct TransferRequest {
    pub account_from: u32,
    pub account_to: u32,
    pub transfer_value: i64,
}

impl TransferRequest {
    pub fn new(account_from: u32, account_to: u32, transfer_value: i64) -> (r: Self)
        ensures
            r == (TransferRequest { account_from, account_to, transfer_value }),
    {
        Self { account_from, account_to, transfer_value }
    }
}

/// The answer to a transfer that was carried out.
#[derive(Debug, PartialEq, Eq)]
pub struct TransferResponse {
    pub info: String,
    pub details: TransferRequest,
}

impl TransferResponse {
    /// The text that every such answer carries.
    pub open spec fn info_text() -> Seq<char> {
        "successfully transfered"@
    }

    pub fn new(details: TransferRequest) -> (r: Self)
        ensures
            r.info@ == Self::info_text(),
            r.details == details,
    {
        Self { info: "successfully transfered".to_string(), details }
    }
}

} // verus!
