//! Accounts and their well-formedness.

use crate::transaction::{Operation, Transaction, TransactionView};
use vstd::prelude::*;

verus! {

/// Whether an account is open. No operation closes an account, and none asks.
#[derive(Debug, Clone, Copy, PartialEq, Eq, Structural)]
pub enum Status {
    Opened,
    Closed,
}

impl Default for Status {
    fn default() -> (r: Self)
        ensures
            r == Status::Opened,
    {
        Status::Opened
    }
}

/// An account: its balance and the history that led to it.
#[derive(Debug, PartialEq, Eq)]
pub struct Account {
    pub id: u32,
    pub status: Status,
    pub balance: i128,
    pub transactions: Vec<Transaction>,
}

/// An account as a mathematical record.
pub struct AccountView {
    pub id: nat,
    pub status: Status,
    pub balance: int,
    pub transactions: Seq<TransactionView>,
}

impl AccountView {
    /// The account with this id as it is opened: balance 0 and a history of
    /// the registration entry alone.
    pub open spec fn opened(id: nat) -> AccountView {
        AccountView {
            id,
            status: Status::Opened,
            balance: 0,
            transactions: seq![TransactionView::registration()],
        }
    }

    /// A well-formed account: its history starts with the registration entry,
    /// each entry's id is its position, each later entry extends the one
    /// before it, and the balance is the one the last entry left.
    pub open spec fn wf(self) -> bool {
        &&& self.transactions.len() > 0
        &&& self.transactions[0] == TransactionView::registration()
        &&& forall|i: int|
            0 <= i < self.transactions.len() ==> (#[trigger] self.transactions[i]).id == i
        &&& forall|i: int|
            0 < i < self.transactions.len() ==> (#[trigger] self.transactions[i]).extends(
                self.transactions[i - 1],
            )
        &&& self.balance == self.transactions.last().current
    }

    /// Whether an operation of kind `operation` and amount `value` is carried
    /// out on this account: the amount is positive, and a debit finds it in
    /// the balance.
    pub open spec fn accepts(self, value: int, operation: Operation) -> bool {
        value > 0 && (operation.debits() ==> self.balance >= value)
    }

    /// The account after an operation of kind `operation` and amount `value`:
    /// one more entry, and the balance it leaves.
    pub open spec fn applied(self, value: int, operation: Operation) -> AccountView {
        let entry = TransactionView::record(
            self.transactions.len(),
            operation,
            self.transactions.last().current,
            value,
        );
        AccountView {
            id: self.id,
            status: self.status,
            balance: entry.current,
            transactions: self.transactions.push(entry),
        }
    }
}

/// An operation that a well-formed account accepts leaves it well-formed.
pub proof fn lemma_applied_wf(account: AccountView, value: int, operation: Operation)
    requires
        account.wf(),
        account.accepts(value, operation),
    ensures
        account.applied(value, operation).wf(),
{
    let after = account.applied(value, operation);
    let n = account.transactions.len() as int;
    assert(account.transactions[n - 1].current >= 0) by {
        if n > 1 {
            assert(account.transactions[n - 1].extends(account.transactions[n - 2]));
        }
    }
    assert forall|i: int| 0 < i < after.transactions.len() implies (
    #[trigger] after.transactions[i]).extends(after.transactions[i - 1]) by {
        if i < n {
            assert(account.transactions[i].extends(account.transactions[i - 1]));
        }
    }
}

impl View for Account {
    type V = AccountView;

    open spec fn view(&self) -> AccountView {
        AccountView {
            id: self.id as nat,
            status: self.status,
            balance: self.balance as int,
            transactions: self.transactions@.map_values(|t: Transaction| t@),
        }
    }
}

impl Account {
    /// Whether the account is well-formed.
    pub open spec fn wf(&self) -> bool {
        self@.wf()
    }

    /// In a well-formed account no entry leaves a negative balance, and the
    /// entry at position `i` leaves at most `i` times the largest amount that
    /// one operation can move.
    pub proof fn lemma_current_bounded(self, i: int)
        requires
            self.wf(),
            0 <= i < self.transactions.len(),
        ensures
            0 <= self.transactions[i].current <= i * i64::MAX,
        decreases i,
    {
        assert(self@.transactions[i] == self.transactions[i]@);
        if i > 0 {
            self.lemma_current_bounded(i - 1);
            assert(self@.transactions[i - 1] == self.transactions[i - 1]@);
            assert(self@.transactions[i].extends(self@.transactions[i - 1]));
        }
    }

    /// Checks the account against `wf`.
    pub fn is_valid(&self) -> (ok: bool)
        ensures
            ok == self.wf(),
    {
        let n: usize = self.transactions.len();
        if n == 0 {
            return false;
        }
        let first: Transaction = self.transactions[0];
        assert(self@.transactions[0] == first@);
        if first.id != 0 || first.operation != Operation::Registration || first.previous != 0
            || first.delta != 0 || first.current != 0 {
            return false;
        }
        let mut i: usize = 1;
        while i < n
            invariant
                1 <= i <= n,
                n == self.transactions.len(),
                self@.transactions[0] == TransactionView::registration(),
                forall|j: int| 0 <= j < i ==> (#[trigger] self@.transactions[j]).id == j,
                forall|j: int|
                    0 < j < i ==> (#[trigger] self@.transactions[j]).extends(
                        self@.transactions[j - 1],
                    ),
            decreases n - i,
        {
            let entry: Transaction = self.transactions[i];
            let before: Transaction = self.transactions[i - 1];
            assert(self@.transactions[i as int] == entry@);
            assert(self@.transactions[i - 1] == before@);
            assert(before.current >= 0) by {
                if i > 1 {
                    assert(self@.transactions[i - 1].extends(self@.transactions[i - 2]));
                }
            }
            if entry.id as usize != i || entry.previous != before.current || entry.delta <= 0
                || entry.current < 0 {
                return false;
            }
            let moved: i128 = if entry.operation.is_debit() {
                entry.previous - entry.current
            } else {
                entry.current - entry.previous
            };
            if moved != entry.delta as i128 {
                return false;
            }
            i += 1;
        }
        self.balance == self.transactions[n - 1].current
    }

    /// An account without id and without history: the value that a ledger
    /// takes, after the registration entry is added, to open an account.
    pub fn new() -> (a: Self)
        ensures
            a.id == 0,
            a.status == Status::Opened,
            a.balance == 0,
            a.transactions@.len() == 0,
    {
        Default::default()
    }
}

impl Default for Account {
    fn default() -> (a: Self)
        ensures
            a.id == 0,
            a.status == Status::Opened,
            a.balance == 0,
            a.transactions@.len() == 0,
    {
        Account { id: 0, status: Status::default(), balance: 0, transactions: Vec::new() }
    }
}

impl Clone for Account {
    fn clone(&self) -> (r: Self)
        ensures
            r@ == self@,
            r.id == self.id,
            r.status == self.status,
            r.balance == self.balance,
            r.transactions@ == self.transactions@,
    {
        let r = Account {
            id: self.id,
            status: self.status,
            balance: self.balance,
            transactions: self.transactions.clone(),
        };
        assert(r.transactions@ =~= self.transactions@);
        r
    }
}

/// The answer to a question for an account's balance.
#[derive(Debug, Clone, Copy, PartialEq, Eq, Structural)]
pub struct BalanceResponse {
    pub balance: i128,
}

impl BalanceResponse {
    pub fn new(balance: i128) -> (r: Self)
        ensures
            r.balance == balance,
    {
        Self { balance }
    }
}

} // verus!
