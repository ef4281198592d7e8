use bank_ledger::account::{Account, Status};
use bank_ledger::cache::{accounts_valid, largest_key, Cache, CacheImpl};
use bank_ledger::errors::AppError;
use bank_ledger::storage::{Storage, Storages};
use bank_ledger::transaction::{Operation, Transaction};
use bank_ledger::usecases::{
    account, balance, change_acc_balance, history, new_account, restore, transaction,
};
use std::collections::HashMap;

fn opened(id: u32) -> Account {
    Account {
        id,
        status: Status::Opened,
        balance: 0,
        transactions: vec![Transaction::new(0, Operation::Registration, 0, 0, 0)],
    }
}

fn with_history(id: u32, balance: i128, entries: &[(Operation, i128, i64, i128)]) -> Account {
    let mut held = opened(id);
    for (operation, previous, delta, current) in entries {
        let position = held.transactions.len() as u32;
        held.transactions.push(Transaction::new(position, *operation, *previous, *delta, *current));
    }
    held.balance = balance;
    held
}

fn sample() -> Storage {
    let mut storage = Storage::default();
    new_account(&mut storage);
    new_account(&mut storage);
    change_acc_balance(&mut storage, 80, 1, Operation::Replenish).unwrap();
    change_acc_balance(&mut storage, 30, 1, Operation::Withdraw).unwrap();
    storage
}

#[test]
fn default_store_is_empty_and_valid() {
    let store = CacheImpl::default();
    assert_eq!(store.id, 0);
    assert!(store.cache.is_empty());
    assert!(store.is_valid());
    assert!(Storage::default().is_valid());
}

#[test]
fn account_new_has_no_history() {
    let blank = Account::new();
    assert_eq!(blank.id, 0);
    assert_eq!(blank.status, Status::Opened);
    assert_eq!(blank.balance, 0);
    assert!(blank.transactions.is_empty());
    assert!(!blank.is_valid());
}

#[test]
fn create_account_gives_the_next_id_and_writes_it_into_the_account() {
    let mut store = CacheImpl::default();
    assert_eq!(store.create_account(opened(0)), 1);
    assert_eq!(store.create_account(opened(77)), 2);
    assert_eq!(store.id, 2);
    assert_eq!(store.get_account(1), Ok(&opened(1)));
    assert_eq!(store.get_account(2), Ok(&opened(2)));
    assert!(store.is_valid());
}

#[test]
fn check_key_and_accessors() {
    let mut store = CacheImpl::default();
    store.create_account(opened(0));
    assert!(store.check_key(1));
    assert!(!store.check_key(0));
    assert!(!store.check_key(2));
    assert_eq!(store.get_account(2), Err(AppError::AccountNotExists(2)));
    assert_eq!(store.get_mut_account(2), Err(AppError::AccountNotExists(2)));
    let held = store.get_mut_account(1).unwrap();
    held.status = Status::Closed;
    assert_eq!(store.get_account(1).unwrap().status, Status::Closed);
    assert_eq!(store.cache.len(), 1);
    let copy = store.get_accounts();
    assert_eq!(copy.len(), 1);
    assert_eq!(copy[&1], *store.get_account(1).unwrap());
}

#[test]
fn storage_hands_out_its_store() {
    let mut storage = Storage::default();
    storage.db().create_account(opened(0));
    assert!(storage.db.check_key(1));
    assert!(storage.db_ref().check_key(1));
    assert_eq!(storage.db_ref().id, 1);
    storage.db().get_mut_account(1).unwrap().status = Status::Closed;
    assert_eq!(storage.db_ref().get_account(1).unwrap().status, Status::Closed);
}

#[test]
fn valid_histories() {
    assert!(opened(3).is_valid());
    assert!(with_history(
        1,
        25,
        &[
            (Operation::Replenish, 0, 100, 100),
            (Operation::Withdraw, 100, 30, 70),
            (Operation::TransferDecrease, 70, 50, 20),
            (Operation::TransferIncrease, 20, 5, 25),
        ]
    )
    .is_valid());
    let mut closed = opened(1);
    closed.status = Status::Closed;
    assert!(closed.is_valid());
}

#[test]
fn invalid_histories() {
    // balance is not what the last entry left
    assert!(!with_history(1, 99, &[(Operation::Replenish, 0, 100, 100)]).is_valid());
    // an entry that does not start where the one before ended
    assert!(!with_history(1, 100, &[(Operation::Replenish, 1, 99, 100)]).is_valid());
    // wrong sum
    assert!(!with_history(1, 101, &[(Operation::Replenish, 0, 100, 101)]).is_valid());
    // a debit entered as a credit
    assert!(!with_history(
        1,
        130,
        &[(Operation::Replenish, 0, 100, 100), (Operation::Withdraw, 100, 30, 130)]
    )
    .is_valid());
    // an amount of zero
    assert!(!with_history(1, 0, &[(Operation::Replenish, 0, 0, 0)]).is_valid());
    // a negative amount
    assert!(!with_history(
        1,
        90,
        &[(Operation::Replenish, 0, 100, 100), (Operation::Replenish, 100, -10, 90)]
    )
    .is_valid());
    // a negative balance
    assert!(!with_history(1, -5, &[(Operation::Withdraw, 0, 5, -5)]).is_valid());
    // ids that are not positions
    let mut gap = with_history(1, 100, &[(Operation::Replenish, 0, 100, 100)]);
    gap.transactions[1].id = 2;
    assert!(!gap.is_valid());
    let mut shifted = opened(1);
    shifted.transactions[0].id = 1;
    assert!(!shifted.is_valid());
    // a first entry that is not the registration entry
    let mut started = opened(1);
    started.transactions[0] = Transaction::new(0, Operation::Replenish, 0, 0, 0);
    assert!(!started.is_valid());
    let mut funded = opened(1);
    funded.transactions[0] = Transaction::new(0, Operation::Registration, 0, 10, 10);
    funded.balance = 10;
    assert!(!funded.is_valid());
    // extreme values
    assert!(!with_history(
        1,
        i128::MAX,
        &[(Operation::Replenish, 0, i64::MAX, i128::MAX)]
    )
    .is_valid());
    assert!(!with_history(
        1,
        i128::MIN,
        &[(Operation::Withdraw, 0, i64::MAX, i128::MIN)]
    )
    .is_valid());
}

#[test]
fn accounts_must_stand_under_their_own_id() {
    let mut accounts = HashMap::new();
    accounts.insert(1, opened(1));
    accounts.insert(2, opened(2));
    assert!(accounts_valid(&accounts));
    accounts.insert(3, opened(4));
    assert!(!accounts_valid(&accounts));
    accounts.remove(&3);
    accounts.insert(5, Account::new());
    assert!(!accounts_valid(&accounts));
    assert!(accounts_valid(&HashMap::new()));
}

#[test]
fn unreadable_snapshot_is_refused() {
    let mut storage = sample();
    let before = history(&storage).unwrap();
    assert_eq!(restore(&mut storage, None, None), Err(AppError::BackupLoadFile));
    let mut accounts = HashMap::new();
    accounts.insert(9, opened(9));
    assert_eq!(restore(&mut storage, None, Some(accounts)), Err(AppError::BackupLoadFile));
    assert_eq!(history(&storage).unwrap(), before);
}

#[test]
fn empty_snapshot_is_refused() {
    let mut storage = sample();
    let before = history(&storage).unwrap();
    assert_eq!(restore(&mut storage, Some(""), None), Err(AppError::EmptyBackupFile));
    assert_eq!(
        restore(&mut storage, Some(""), Some(HashMap::new())),
        Err(AppError::EmptyBackupFile)
    );
    assert_eq!(history(&storage).unwrap(), before);
}

#[test]
fn snapshot_that_stands_for_no_accounts_is_refused() {
    let mut storage = sample();
    let before = history(&storage).unwrap();
    assert_eq!(restore(&mut storage, Some("{"), None), Err(AppError::InvalidBackupFile));
    assert_eq!(history(&storage).unwrap(), before);
}

#[test]
fn snapshot_with_an_ill_formed_account_is_refused() {
    let mut storage = sample();
    let before = history(&storage).unwrap();
    let mut accounts = HashMap::new();
    accounts.insert(1, opened(1));
    accounts.insert(2, with_history(2, 7, &[(Operation::Replenish, 0, 8, 8)]));
    assert_eq!(
        restore(&mut storage, Some("{}"), Some(accounts)),
        Err(AppError::InvalidBackupFile)
    );
    let mut accounts = HashMap::new();
    accounts.insert(1, opened(2));
    assert_eq!(
        restore(&mut storage, Some("{}"), Some(accounts)),
        Err(AppError::InvalidBackupFile)
    );
    assert_eq!(history(&storage).unwrap(), before);
    assert_eq!(storage.db.id, 2);
}

#[test]
fn snapshot_replaces_all_accounts_and_raises_the_counter() {
    let mut storage = sample();
    let mut accounts = HashMap::new();
    accounts.insert(5, with_history(5, 8, &[(Operation::Replenish, 0, 8, 8)]));
    accounts.insert(9, opened(9));
    let expected = accounts.clone();
    assert_eq!(restore(&mut storage, Some("{}"), Some(accounts)), Ok(()));
    assert_eq!(history(&storage).unwrap(), expected);
    assert_eq!(account(&storage, 1), Err(AppError::AccountNotExists(1)));
    assert_eq!(balance(&storage, 5).unwrap().balance, 8);
    assert_eq!(storage.db.id, 9);
    assert!(storage.is_valid());
    assert_eq!(new_account(&mut storage).account_id, 10);
    assert_eq!(balance(&storage, 5).unwrap().balance, 8);
    assert_eq!(account(&storage, 9).unwrap(), opened(9));
}

#[test]
fn snapshot_with_smaller_ids_keeps_the_counter() {
    let mut storage = sample();
    new_account(&mut storage);
    new_account(&mut storage);
    assert_eq!(storage.db.id, 4);
    let mut accounts = HashMap::new();
    accounts.insert(2, opened(2));
    assert_eq!(restore(&mut storage, Some("{}"), Some(accounts)), Ok(()));
    assert_eq!(storage.db.id, 4);
    assert_eq!(new_account(&mut storage).account_id, 5);
    assert_eq!(restore(&mut storage, Some("{}"), Some(HashMap::new())), Ok(()));
    assert_eq!(storage.db.id, 5);
    assert!(storage.is_valid());
}

#[test]
fn account_opened_after_a_restore_replaces_no_restored_account() {
    let mut written = Storage::default();
    new_account(&mut written);
    change_acc_balance(&mut written, 100, 1, Operation::Replenish).unwrap();
    new_account(&mut written);
    let snapshot = history(&written).unwrap();

    let mut fresh = Storage::default();
    assert_eq!(fresh.db.id, 0);
    assert_eq!(restore(&mut fresh, Some("{...}"), Some(snapshot.clone())), Ok(()));
    let opened_after = new_account(&mut fresh);
    assert_eq!(opened_after.account_id, 3);
    assert_eq!(balance(&fresh, 1).unwrap().balance, 100);
    assert_eq!(account(&fresh, 1).unwrap(), snapshot[&1]);
    assert_eq!(account(&fresh, 2).unwrap(), snapshot[&2]);
    assert_eq!(transaction(&fresh, 1, 1).unwrap().delta, 100);
    assert_eq!(history(&fresh).unwrap().len(), 3);
    assert!(fresh.is_valid());
}

#[test]
fn largest_key_of_accounts() {
    let mut accounts = HashMap::new();
    assert_eq!(largest_key(&accounts), 0);
    accounts.insert(0, opened(0));
    assert_eq!(largest_key(&accounts), 0);
    accounts.insert(7, opened(7));
    accounts.insert(3, opened(3));
    assert_eq!(largest_key(&accounts), 7);
    accounts.insert(u32::MAX, opened(u32::MAX));
    assert_eq!(largest_key(&accounts), u32::MAX);
}

#[test]
fn account_above_the_counter_makes_the_ledger_invalid() {
    let mut storage = sample();
    assert!(storage.is_valid());
    storage.db.cache.insert(3, opened(3));
    assert!(!storage.is_valid());
    storage.db.id = 3;
    assert!(storage.is_valid());
}

#[test]
fn snapshot_without_accounts_empties_the_ledger() {
    let mut storage = sample();
    assert_eq!(restore(&mut storage, Some("{}"), Some(HashMap::new())), Ok(()));
    assert_eq!(history(&storage), Err(AppError::EmptyDb));
}

#[test]
fn restoring_a_ledgers_own_accounts_gives_the_same_ledger() {
    let mut storage = sample();
    let snapshot = history(&storage).unwrap();
    change_acc_balance(&mut storage, 5, 2, Operation::Replenish).unwrap();
    new_account(&mut storage);
    assert_eq!(restore(&mut storage, Some("{...}"), Some(snapshot.clone())), Ok(()));
    assert_eq!(history(&storage).unwrap(), snapshot);
    let again = history(&storage).unwrap();
    assert_eq!(restore(&mut storage, Some("{...}"), Some(again)), Ok(()));
    assert_eq!(history(&storage).unwrap(), snapshot);
    assert_eq!(
        change_acc_balance(&mut storage, 50, 1, Operation::Withdraw).unwrap().balance,
        0
    );
}

#[test]
fn store_restores_directly() {
    let mut store = CacheImpl::default();
    let mut accounts = HashMap::new();
    accounts.insert(4, opened(4));
    assert_eq!(store.backup_load(Some("x"), Some(accounts)), Ok(()));
    assert!(store.check_key(4));
    assert_eq!(store.id, 4);
    assert_eq!(store.create_account(opened(0)), 5);
    assert_eq!(store.get_account(4), Ok(&opened(4)));
    assert!(store.is_valid());
}

#[test]
fn defaults() {
    assert_eq!(Transaction::default(), Transaction::new(0, Operation::Registration, 0, 0, 0));
    assert_eq!(Account::default(), Account::new());
    let mut held = Account::default();
    held.transactions.push(Transaction::default());
    assert!(held.is_valid());
}
