//! The operations of the ledger: opening accounts, changing balances,
//! transfers, queries, and restoring a snapshot.

use crate::account::{lemma_applied_wf, Account, AccountView, BalanceResponse};
use crate::cache::{accounts_of, accounts_view, text_of, Cache};
use crate::errors::AppError;
use crate::ledger::LedgerView;
use crate::storage::Storages;
use crate::transaction::{
    Operation, Transaction, TransactionRequest, TransactionResponse, TransactionView,
    TransferRequest, TransferResponse,
};
use std::collections::HashMap;
use vstd::prelude::*;
use vstd::std_specs::hash::*;

verus! {

broadcast use vstd::std_specs::hash::group_hash_axioms;

/// Opens a new account: balance 0, a history of the registration entry alone,
/// and the id after the last one given. In a well-formed ledger no account
/// has that id, and every account that was there stays as it was.
pub fn new_account<S: Storages>(storage: &mut S) -> (tx: TransactionResponse)
    requires
        old(storage)@.can_open(),
    ensures
        final(storage)@ == old(storage)@.opened(),
        old(storage)@.wf() ==> {
            &&& final(storage)@.wf()
            &&& !old(storage)@.accounts.contains_key(tx.account_id)
            &&& final(storage)@.keeps(old(storage)@)
        },
        tx.account_id == old(storage)@.last_id + 1,
        tx.transaction_id == 0,
        tx.balance == 0,
{
    let mut account: Account = Account::new();
    let tx_new: Transaction = Transaction::new(0, Operation::default(), 0, 0, 0);
    account.transactions.push(tx_new);
    assert(account@.transactions =~= AccountView::opened(0).transactions);
    let acc_id: u32 = storage.db().create_account(account);
    proof {
        let opened = AccountView::opened(acc_id as nat);
        assert(opened.transactions[0] == TransactionView::registration());
        assert(opened.wf());
    }
    TransactionResponse::new(acc_id, 0, 0)
}

/// Carries out an operation of kind `operation` and amount `trans_value` on
/// account `account_id`, or refuses it and changes nothing. The operation
/// appends one entry to the account's history and sets the balance to the one
/// the entry leaves.
pub fn change_acc_balance<S: Storages>(
    storage: &mut S,
    trans_value: i64,
    account_id: u32,
    operation: Operation,
) -> (r: Result<TransactionResponse, AppError>)
    requires
        old(storage)@.wf(),
        old(storage)@.delta_error(account_id, trans_value as int, operation) is None
            ==> old(storage)@.has_room(account_id),
    ensures
        final(storage)@.wf(),
        match r {
            Ok(tx) => {
                &&& old(storage)@.delta_error(account_id, trans_value as int, operation) is None
                &&& final(storage)@ == old(storage)@.changed(
                    account_id,
                    trans_value as int,
                    operation,
                )
                &&& tx.account_id == account_id
                &&& tx.transaction_id == old(storage)@.accounts[account_id].transactions.len()
                &&& tx.balance == final(storage)@.accounts[account_id].balance
            },
            Err(e) => {
                &&& old(storage)@.delta_error(account_id, trans_value as int, operation) == Some(e)
                &&& final(storage)@ == old(storage)@
            },
        },
        old(storage)@.accounts.contains_key(account_id) && trans_value <= 0 ==> {
            &&& r matches Err(AppError::ZeroValueTransaction)
            &&& final(storage)@ == old(storage)@
        },
        old(storage)@.accounts.contains_key(account_id) && operation.debits() && trans_value
            > old(storage)@.accounts[account_id].balance ==> {
            &&& r matches Err(AppError::Overdraft)
            &&& final(storage)@ == old(storage)@
        },
{
    if !storage.db_ref().check_key(account_id) {
        return Err(AppError::AccountNotExists(account_id));
    }
    if trans_value <= 0 {
        return Err(AppError::ZeroValueTransaction);
    }
    if operation.is_debit() && storage.db_ref().get_account(account_id).unwrap().balance
        < trans_value as i128 {
        return Err(AppError::Overdraft);
    }
    let cur_acc: &mut Account = storage.db().get_mut_account(account_id).unwrap();
    let ghost before: Account = *cur_acc;
    let last_tx_id: u32 = (cur_acc.transactions.len() - 1) as u32;
    let new_tx_id: u32 = last_tx_id + 1;
    let previous: i128 = cur_acc.transactions[last_tx_id as usize].current;
    proof {
        before.lemma_current_bounded(last_tx_id as int);
        assert(before@.transactions.last() == before.transactions[last_tx_id as int]@);
    }
    let new_balance: i128 = if operation.is_debit() {
        previous - trans_value as i128
    } else {
        previous + trans_value as i128
    };
    let tx_new: Transaction = Transaction::new(
        new_tx_id,
        operation,
        previous,
        trans_value,
        new_balance,
    );
    cur_acc.transactions.push(tx_new);
    cur_acc.balance = new_balance;
    proof {
        let after = before@.applied(trans_value as int, operation);
        assert(cur_acc@.transactions =~= after.transactions);
        assert(cur_acc@ == after);
        lemma_applied_wf(before@, trans_value as int, operation);
    }
    let tx: TransactionResponse = TransactionResponse::new(account_id, new_tx_id, new_balance);
    Ok(tx)
}

/// Adds the amount of `payload` to the balance of its account: a
/// `Replenish` operation.
pub fn replenish<S: Storages>(storage: &mut S, payload: TransactionRequest) -> (r: Result<
    TransactionResponse,
    AppError,
>)
    requires
        old(storage)@.wf(),
        old(storage)@.delta_error(
            payload.account_id,
            payload.transaction_value as int,
            Operation::Replenish,
        ) is None ==> old(storage)@.has_room(payload.account_id),
    ensures
        final(storage)@.wf(),
        match r {
            Ok(tx) => {
                &&& old(storage)@.delta_error(
                    payload.account_id,
                    payload.transaction_value as int,
                    Operation::Replenish,
                ) is None
                &&& final(storage)@ == old(storage)@.changed(
                    payload.account_id,
                    payload.transaction_value as int,
                    Operation::Replenish,
                )
                &&& tx.account_id == payload.account_id
                &&& tx.transaction_id
                    == old(storage)@.accounts[payload.account_id].transactions.len()
                &&& tx.balance == old(storage)@.accounts[payload.account_id].balance
                    + payload.transaction_value
            },
            Err(e) => {
                &&& old(storage)@.delta_error(
                    payload.account_id,
                    payload.transaction_value as int,
                    Operation::Replenish,
                ) == Some(e)
                &&& final(storage)@ == old(storage)@
            },
        },
{
    proof {
        if storage@.accounts.contains_key(payload.account_id) {
            assert(storage@.accounts[payload.account_id].wf());
        }
    }
    change_acc_balance(
        storage,
        payload.transaction_value,
        payload.account_id,
        Operation::Replenish,
    )
}

/// Takes the amount of `payload` from the balance of its account, which must
/// hold it: a `Withdraw` operation.
pub fn withdraw<S: Storages>(storage: &mut S, payload: TransactionRequest) -> (r: Result<
    TransactionResponse,
    AppError,
>)
    requires
        old(storage)@.wf(),
        old(storage)@.delta_error(
            payload.account_id,
            payload.transaction_value as int,
            Operation::Withdraw,
        ) is None ==> old(storage)@.has_room(payload.account_id),
    ensures
        final(storage)@.wf(),
        match r {
            Ok(tx) => {
                &&& old(storage)@.delta_error(
                    payload.account_id,
                    payload.transaction_value as int,
                    Operation::Withdraw,
                ) is None
                &&& final(storage)@ == old(storage)@.changed(
                    payload.account_id,
                    payload.transaction_value as int,
                    Operation::Withdraw,
                )
                &&& tx.account_id == payload.account_id
                &&& tx.transaction_id
                    == old(storage)@.accounts[payload.account_id].transactions.len()
                &&& tx.balance == old(storage)@.accounts[payload.account_id].balance
                    - payload.transaction_value
            },
            Err(e) => {
                &&& old(storage)@.delta_error(
                    payload.account_id,
                    payload.transaction_value as int,
                    Operation::Withdraw,
                ) == Some(e)
                &&& final(storage)@ == old(storage)@
            },
        },
{
    proof {
        if storage@.accounts.contains_key(payload.account_id) {
            assert(storage@.accounts[payload.account_id].wf());
        }
    }
    change_acc_balance(
        storage,
        payload.transaction_value,
        payload.account_id,
        Operation::Withdraw,
    )
}

/// Moves `transfer_value` from account `account_from` to account
/// `account_to`, or refuses and changes nothing. The sender's history gets a
/// `TransferDecrease` entry and the receiver's a `TransferIncrease` entry, both
/// or neither.
pub fn transfer<S: Storages>(storage: &mut S, payload: TransferRequest) -> (r: Result<
    TransferResponse,
    AppError,
>)
    requires
        old(storage)@.wf(),
        old(storage)@.transfer_error(
            payload.account_from,
            payload.account_to,
            payload.transfer_value as int,
        ) is None ==> old(storage)@.has_room(payload.account_from) && old(storage)@.has_room(
            payload.account_to,
        ),
    ensures
        final(storage)@.wf(),
        match r {
            Ok(tx) => {
                &&& old(storage)@.transfer_error(
                    payload.account_from,
                    payload.account_to,
                    payload.transfer_value as int,
                ) is None
                &&& final(storage)@ == old(storage)@.transferred(
                    payload.account_from,
                    payload.account_to,
                    payload.transfer_value as int,
                )
                &&& tx.info@ == TransferResponse::info_text()
                &&& tx.details == payload
            },
            Err(e) => {
                &&& old(storage)@.transfer_error(
                    payload.account_from,
                    payload.account_to,
                    payload.transfer_value as int,
                ) == Some(e)
                &&& final(storage)@ == old(storage)@
            },
        },
        payload.account_from == payload.account_to && payload.transfer_value > 0 ==> {
            &&& r matches Err(AppError::SelfTransfer)
            &&& final(storage)@ == old(storage)@
        },
{
    let tx_value: i64 = payload.transfer_value;
    if tx_value <= 0 {
        return Err(AppError::ZeroValueTransaction);
    }
    if payload.account_to == payload.account_from {
        return Err(AppError::SelfTransfer);
    }
    if !storage.db_ref().check_key(payload.account_from) {
        return Err(AppError::AccountNotExists(payload.account_from));
    }
    if !storage.db_ref().check_key(payload.account_to) {
        return Err(AppError::AccountNotExists(payload.account_to));
    }
    match change_acc_balance(storage, tx_value, payload.account_from, Operation::TransferDecrease) {
        Ok(_) => {},
        Err(e) => {
            return Err(e);
        },
    }
    match change_acc_balance(storage, tx_value, payload.account_to, Operation::TransferIncrease) {
        Ok(_) => {},
        Err(e) => {
            return Err(e);
        },
    }
    Ok(TransferResponse::new(payload))
}

/// The balance of account `account_id`.
pub fn balance<S: Storages>(storage: &S, account_id: u32) -> (r: Result<BalanceResponse, AppError>)
    ensures
        match r {
            Ok(found) => storage@.accounts.contains_key(account_id) && found.balance
                == storage@.accounts[account_id].balance,
            Err(e) => !storage@.accounts.contains_key(account_id) && e
                == AppError::AccountNotExists(account_id),
        },
{
    match storage.db_ref().get_account(account_id) {
        Ok(account) => Ok(BalanceResponse::new(account.balance)),
        Err(e) => Err(e),
    }
}

/// A copy of account `account_id`, history and all.
pub fn account<S: Storages>(storage: &S, account_id: u32) -> (r: Result<Account, AppError>)
    ensures
        match r {
            Ok(found) => storage@.accounts.contains_key(account_id) && found@
                == storage@.accounts[account_id],
            Err(e) => !storage@.accounts.contains_key(account_id) && e
                == AppError::AccountNotExists(account_id),
        },
{
    match storage.db_ref().get_account(account_id) {
        Ok(account) => Ok(account.clone()),
        Err(e) => Err(e),
    }
}

/// The entry with id `transaction_id` of the history of account `account_id`.
pub fn transaction<S: Storages>(storage: &S, account_id: u32, transaction_id: u32) -> (r: Result<
    Transaction,
    AppError,
>)
    ensures
        match r {
            Ok(found) => {
                &&& storage@.transaction_error(account_id, transaction_id) is None
                &&& found@ == storage@.accounts[account_id].transactions[transaction_id as int]
            },
            Err(e) => storage@.transaction_error(account_id, transaction_id) == Some(e),
        },
{
    let account: &Account = match storage.db_ref().get_account(account_id) {
        Ok(account) => account,
        Err(e) => {
            return Err(e);
        },
    };
    if transaction_id as usize >= account.transactions.len() {
        return Err(AppError::TransactionNotExists(account_id, transaction_id));
    }
    Ok(account.transactions[transaction_id as usize])
}

/// A copy of all accounts by id, unless there is none.
pub fn history<S: Storages>(storage: &S) -> (r: Result<HashMap<u32, Account>, AppError>)
    ensures
        match r {
            Ok(accounts) => !storage@.accounts.is_empty() && accounts_view(accounts@)
                == storage@.accounts,
            Err(e) => storage@.accounts.is_empty() && e == AppError::EmptyDb,
        },
{
    let db: HashMap<u32, Account> = storage.db_ref().get_accounts();
    assert(storage@.accounts.dom() =~= db@.dom());
    if db.is_empty() {
        return Err(AppError::EmptyDb);
    }
    Ok(db)
}

/// Restores the ledger from a snapshot: replaces all accounts by those of the
/// snapshot, or refuses the snapshot and changes nothing. `payload` is the
/// snapshot's text, if it could be read; `decoded` holds the accounts that
/// the text stands for, if it stands for any. Where a restored account's id
/// is above the id given last, the greatest of them becomes the id given
/// last, so that an account opened later takes no restored account's id.
pub fn restore<S: Storages>(
    storage: &mut S,
    payload: Option<&str>,
    decoded: Option<HashMap<u32, Account>>,
) -> (r: Result<(), AppError>)
    ensures
        match r {
            Ok(_) => {
                &&& LedgerView::restore_error(text_of(payload), accounts_of(decoded)) is None
                &&& final(storage)@ == old(storage)@.restored(accounts_of(decoded)->0)
                &&& final(storage)@.accounts == accounts_of(decoded)->0
                &&& final(storage)@.last_id >= old(storage)@.last_id
                &&& final(storage)@.wf()
            },
            Err(e) => {
                &&& LedgerView::restore_error(text_of(payload), accounts_of(decoded)) == Some(e)
                &&& final(storage)@ == old(storage)@
            },
        },
{
    storage.db().backup_load(payload, decoded)
}

} // verus!
