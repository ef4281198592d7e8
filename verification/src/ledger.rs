//! The ledger as a mathematical record, and what each operation makes of it.

use crate::account::AccountView;
use crate::errors::AppError;
use crate::transaction::Operation;
use vstd::prelude::*;

verus! {

/// A ledger: the accounts by id, and the id given to the account created last
/// (0 before the first).
pub struct LedgerView {
    pub last_id: nat,
    pub accounts: Map<u32, AccountView>,
}

/// Whether each of these accounts is well-formed and stands under its own id.
pub open spec fn accounts_wf(accounts: Map<u32, AccountView>) -> bool {
    forall|id: u32| #[trigger]
        accounts.contains_key(id) ==> accounts[id].wf() && accounts[id].id == id
}

/// Whether no account of these stands under an id above `last_id`.
pub open spec fn ids_within(accounts: Map<u32, AccountView>, last_id: nat) -> bool {
    forall|id: u32| #[trigger] accounts.contains_key(id) ==> id <= last_id
}

/// The largest id, among those up to `limit`, under which these accounts hold
/// an account; 0 where they hold none there.
pub open spec fn largest_id_up_to(accounts: Map<u32, AccountView>, limit: nat) -> nat
    decreases limit,
{
    if limit == 0 {
        0
    } else if limit <= u32::MAX && accounts.contains_key(limit as u32) {
        limit
    } else {
        largest_id_up_to(accounts, (limit - 1) as nat)
    }
}

/// The largest id under which these accounts hold an account; 0 where they
/// hold none.
pub open spec fn largest_id(accounts: Map<u32, AccountView>) -> nat {
    largest_id_up_to(accounts, u32::MAX as nat)
}

/// `largest_id_up_to` is at most `limit`, is 0 or the id of an account, and
/// no account stands under a greater id up to `limit`.
pub proof fn lemma_largest_id_up_to(accounts: Map<u32, AccountView>, limit: nat)
    requires
        limit <= u32::MAX,
    ensures
        largest_id_up_to(accounts, limit) <= limit,
        largest_id_up_to(accounts, limit) == 0 || accounts.contains_key(
            largest_id_up_to(accounts, limit) as u32,
        ),
        forall|id: u32| #[trigger]
            accounts.contains_key(id) && id <= limit ==> id <= largest_id_up_to(accounts, limit),
    decreases limit,
{
    if limit > 0 {
        lemma_largest_id_up_to(accounts, (limit - 1) as nat);
    }
}

/// `largest_id` is the one number that is 0 or the id of an account and that
/// no account's id exceeds.
pub proof fn lemma_largest_id(accounts: Map<u32, AccountView>, largest: nat)
    ensures
        ids_within(accounts, largest_id(accounts)),
        largest_id(accounts) == 0 || accounts.contains_key(largest_id(accounts) as u32),
        largest_id(accounts) <= u32::MAX,
        ids_within(accounts, largest) && (largest == 0 || (largest <= u32::MAX
            && accounts.contains_key(largest as u32))) ==> largest == largest_id(accounts),
        ids_within(accounts, largest) ==> largest_id(accounts) <= largest,
{
    lemma_largest_id_up_to(accounts, u32::MAX as nat);
}

impl LedgerView {
    /// The ledger without accounts.
    pub open spec fn empty() -> LedgerView {
        LedgerView { last_id: 0, accounts: Map::empty() }
    }

    /// A well-formed ledger: every account is well-formed and stands under
    /// its own id, and no id in use is above the one given last.
    pub open spec fn wf(self) -> bool {
        accounts_wf(self.accounts) && ids_within(self.accounts, self.last_id)
    }

    /// Whether one more account can be opened: the next id fits in the
    /// machine's account ids.
    pub open spec fn can_open(self) -> bool {
        self.last_id < u32::MAX
    }

    /// Whether the history of account `id`, if the ledger has it, can take one
    /// more entry.
    pub open spec fn has_room(self, id: u32) -> bool {
        self.accounts.contains_key(id) ==> self.accounts[id].transactions.len() <= u32::MAX
    }

    /// Whether every account of `before` is an account of this ledger, under
    /// the same id and unchanged.
    pub open spec fn keeps(self, before: LedgerView) -> bool {
        forall|id: u32| #[trigger]
            before.accounts.contains_key(id) ==> self.accounts.contains_key(id)
                && self.accounts[id] == before.accounts[id]
    }

    /// The ledger after `account` is stored as a new account: it gets the id
    /// after the last one given and stands under it. In a ledger where no id
    /// in use is above the one given last, that id is free.
    pub open spec fn created(self, account: AccountView) -> LedgerView {
        let id = self.last_id + 1;
        LedgerView {
            last_id: id,
            accounts: self.accounts.insert(
                id as u32,
                AccountView {
                    id,
                    status: account.status,
                    balance: account.balance,
                    transactions: account.transactions,
                },
            ),
        }
    }

    /// The ledger after a new account is opened.
    pub open spec fn opened(self) -> LedgerView {
        self.created(AccountView::opened(0))
    }

    /// The ledger with `account` in place of the account under `id`.
    pub open spec fn replaced(self, id: u32, account: AccountView) -> LedgerView {
        LedgerView { last_id: self.last_id, accounts: self.accounts.insert(id, account) }
    }

    /// Why an operation of kind `operation` and amount `value` on account
    /// `id` is refused, if it is: the account is missing; else the amount is
    /// not positive; else a debit does not find the amount in the balance.
    pub open spec fn delta_error(self, id: u32, value: int, operation: Operation) -> Option<
        AppError,
    > {
        if !self.accounts.contains_key(id) {
            Some(AppError::AccountNotExists(id))
        } else if value <= 0 {
            Some(AppError::ZeroValueTransaction)
        } else if operation.debits() && self.accounts[id].balance < value {
            Some(AppError::Overdraft)
        } else {
            None
        }
    }

    /// The ledger after an operation of kind `operation` and amount `value`
    /// on account `id`.
    pub open spec fn changed(self, id: u32, value: int, operation: Operation) -> LedgerView {
        self.replaced(id, self.accounts[id].applied(value, operation))
    }

    /// Why a transfer of `value` from account `from` to account `to` is
    /// refused, if it is: the amount is not positive; else sender and receiver
    /// are one account; else the sender is missing; else the receiver is
    /// missing; else the sender's balance is smaller than the amount.
    pub open spec fn transfer_error(self, from: u32, to: u32, value: int) -> Option<AppError> {
        if value <= 0 {
            Some(AppError::ZeroValueTransaction)
        } else if from == to {
            Some(AppError::SelfTransfer)
        } else if !self.accounts.contains_key(from) {
            Some(AppError::AccountNotExists(from))
        } else if !self.accounts.contains_key(to) {
            Some(AppError::AccountNotExists(to))
        } else if self.accounts[from].balance < value {
            Some(AppError::Overdraft)
        } else {
            None
        }
    }

    /// The ledger after a transfer of `value` from account `from` to account
    /// `to`: the sender debited, the receiver credited.
    pub open spec fn transferred(self, from: u32, to: u32, value: int) -> LedgerView {
        self.changed(from, value, Operation::TransferDecrease).changed(
            to,
            value,
            Operation::TransferIncrease,
        )
    }

    /// Why a question for entry `transaction` of the history of account `id`
    /// is refused, if it is: the account is missing; else its history has no
    /// entry with that id.
    pub open spec fn transaction_error(self, id: u32, transaction: u32) -> Option<AppError> {
        if !self.accounts.contains_key(id) {
            Some(AppError::AccountNotExists(id))
        } else if transaction >= self.accounts[id].transactions.len() {
            Some(AppError::TransactionNotExists(id, transaction))
        } else {
            None
        }
    }

    /// Why a snapshot is refused, if it is. `payload` is the snapshot's text,
    /// if it could be read; `decoded` holds the accounts that the text stands
    /// for, if it stands for any. The snapshot is unreadable without a text;
    /// else empty, if the text is; else invalid, if the text stands for no
    /// accounts or for accounts that are not well-formed under their ids.
    pub open spec fn restore_error(
        payload: Option<Seq<char>>,
        decoded: Option<Map<u32, AccountView>>,
    ) -> Option<AppError> {
        if payload is None {
            Some(AppError::BackupLoadFile)
        } else if payload->0.len() == 0 {
            Some(AppError::EmptyBackupFile)
        } else if decoded is None || !accounts_wf(decoded->0) {
            Some(AppError::InvalidBackupFile)
        } else {
            None
        }
    }

    /// The ledger after a snapshot's accounts have replaced its own. The id
    /// given last stays where no restored account has a greater one, and
    /// else becomes the greatest of theirs: the next account opened gets an
    /// id that none of them has.
    pub open spec fn restored(self, accounts: Map<u32, AccountView>) -> LedgerView {
        LedgerView {
            last_id: if largest_id(accounts) > self.last_id {
                largest_id(accounts)
            } else {
                self.last_id
            },
            accounts,
        }
    }
}

} // verus!
