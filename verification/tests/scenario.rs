use bank_ledger::errors::AppError;
use bank_ledger::storage::Storage;
use bank_ledger::transaction::{Operation, TransferRequest};
use bank_ledger::usecases::{balance, change_acc_balance, new_account, transfer};

#[test]
fn open_replenish_withdraw_transfer_overdraw() {
    let mut storage = Storage::default();

    let first = new_account(&mut storage);
    assert_eq!(first.account_id, 1);
    assert_eq!(first.transaction_id, 0);
    assert_eq!(first.balance, 0);

    let replenished = change_acc_balance(&mut storage, 100, 1, Operation::Replenish).unwrap();
    assert_eq!(replenished.account_id, 1);
    assert_eq!(replenished.transaction_id, 1);
    assert_eq!(replenished.balance, 100);

    let withdrawn = change_acc_balance(&mut storage, 30, 1, Operation::Withdraw).unwrap();
    assert_eq!(withdrawn.transaction_id, 2);
    assert_eq!(withdrawn.balance, 70);

    let second = new_account(&mut storage);
    assert_eq!(second.account_id, 2);
    assert_eq!(second.balance, 0);

    let moved = transfer(&mut storage, TransferRequest::new(1, 2, 70)).unwrap();
    assert_eq!(moved.info, "successfully transfered");
    assert_eq!(moved.details, TransferRequest::new(1, 2, 70));
    assert_eq!(balance(&storage, 1).unwrap().balance, 0);
    assert_eq!(balance(&storage, 2).unwrap().balance, 70);

    let refused = change_acc_balance(&mut storage, 1, 1, Operation::Withdraw);
    assert_eq!(refused, Err(AppError::Overdraft));
    assert_eq!(balance(&storage, 1).unwrap().balance, 0);
}
