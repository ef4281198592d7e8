//! What holds of every ledger that the operations can produce.

use crate::account::{lemma_applied_wf, AccountView};
use crate::ledger::{accounts_wf, lemma_largest_id, LedgerView};
use crate::transaction::{Operation, TransactionView};
use vstd::prelude::*;

verus! {

/// One call of an operation that changes the ledger.
pub enum Step {
    /// Open an account.
    Open,
    /// An operation of kind `operation` and amount `value` on account `id`.
    Change { id: u32, value: int, operation: Operation },
    /// A transfer of `value` from account `from` to account `to`.
    Transfer { from: u32, to: u32, value: int },
    /// Restore from a snapshot with this text, which stands for these accounts.
    Restore { payload: Option<Seq<char>>, decoded: Option<Map<u32, AccountView>> },
}

/// The ledger after one call: changed as the operation says where the call is
/// accepted, and as it was where the call is refused or the machine's limits
/// on ids rule it out.
pub open spec fn after_step(ledger: LedgerView, step: Step) -> LedgerView {
    match step {
        Step::Open => if ledger.can_open() {
            ledger.opened()
        } else {
            ledger
        },
        Step::Change { id, value, operation } => if ledger.delta_error(id, value, operation)
            is None && ledger.has_room(id) {
            ledger.changed(id, value, operation)
        } else {
            ledger
        },
        Step::Transfer { from, to, value } => if ledger.transfer_error(from, to, value) is None
            && ledger.has_room(from) && ledger.has_room(to) {
            ledger.transferred(from, to, value)
        } else {
            ledger
        },
        Step::Restore { payload, decoded } => if LedgerView::restore_error(payload, decoded)
            is None {
            ledger.restored(decoded->0)
        } else {
            ledger
        },
    }
}

/// The ledger after a sequence of calls, in order.
pub open spec fn after_steps(ledger: LedgerView, steps: Seq<Step>) -> LedgerView
    decreases steps.len(),
{
    if steps.len() == 0 {
        ledger
    } else {
        after_step(after_steps(ledger, steps.drop_last()), steps.last())
    }
}

/// An operation that a well-formed account accepts keeps the entries that
/// were there, in their order, and appends exactly one: its id is the next
/// position, it starts from the balance that was there and moves the amount
/// in the direction of its kind. The balance becomes what that entry leaves,
/// and the ids of all entries are their positions.
pub proof fn lemma_applied_appends(account: AccountView, value: int, operation: Operation)
    requires
        account.wf(),
        account.accepts(value, operation),
    ensures
        ({
            let after = account.applied(value, operation);
            let len = account.transactions.len() as int;
            &&& after.id == account.id
            &&& after.status == account.status
            &&& after.transactions.len() == len + 1
            &&& after.transactions.subrange(0, len) == account.transactions
            &&& after.transactions[len] == TransactionView::record(
                len as nat,
                operation,
                account.balance,
                value,
            )
            &&& after.balance == after.transactions.last().current
            &&& after.balance == TransactionView::outcome(account.balance, value, operation)
            &&& forall|i: int| 0 <= i <= len ==> (#[trigger] after.transactions[i]).id == i
        }),
{
    let after = account.applied(value, operation);
    let len = account.transactions.len() as int;
    lemma_applied_wf(account, value, operation);
    assert(after.transactions.subrange(0, len) =~= account.transactions);
}

/// Opening an account leaves a well-formed ledger well-formed. The new
/// account gets an id that no account had, and every account that was there
/// stays as it was.
pub proof fn lemma_opened_wf(ledger: LedgerView)
    requires
        ledger.wf(),
        ledger.can_open(),
    ensures
        ledger.opened().wf(),
        !ledger.accounts.contains_key((ledger.last_id + 1) as u32),
        ledger.opened().accounts[(ledger.last_id + 1) as u32] == AccountView::opened(
            ledger.last_id + 1,
        ),
        ledger.opened().keeps(ledger),
{
    let id = ledger.last_id + 1;
    let account = AccountView::opened(id);
    assert(account.transactions[0] == TransactionView::registration());
    assert(account.wf());
    assert(ledger.opened().accounts[id as u32] == account);
}

/// An accepted operation on one account leaves a well-formed ledger
/// well-formed, and touches no other account.
pub proof fn lemma_changed_wf(ledger: LedgerView, id: u32, value: int, operation: Operation)
    requires
        ledger.wf(),
        ledger.delta_error(id, value, operation) is None,
    ensures
        ledger.changed(id, value, operation).wf(),
        forall|other: u32|
            other != id ==> ledger.changed(id, value, operation).accounts.contains_key(other)
                == ledger.accounts.contains_key(other) && ledger.changed(
                id,
                value,
                operation,
            ).accounts[other] == ledger.accounts[other],
{
    assert(ledger.accounts.contains_key(id));
    lemma_applied_wf(ledger.accounts[id], value, operation);
}

/// An accepted transfer leaves a well-formed ledger well-formed. It takes the
/// amount from the sender's balance, adds it to the receiver's, adds one entry
/// to the history of each, and touches no other account.
pub proof fn lemma_transferred_wf(ledger: LedgerView, from: u32, to: u32, value: int)
    requires
        ledger.wf(),
        ledger.transfer_error(from, to, value) is None,
    ensures
        ledger.transferred(from, to, value).wf(),
        ledger.transferred(from, to, value).accounts[from].balance == ledger.accounts[from].balance
            - value,
        ledger.transferred(from, to, value).accounts[to].balance == ledger.accounts[to].balance
            + value,
        ledger.transferred(from, to, value).accounts[from].transactions.len()
            == ledger.accounts[from].transactions.len() + 1,
        ledger.transferred(from, to, value).accounts[to].transactions.len()
            == ledger.accounts[to].transactions.len() + 1,
        forall|other: u32|
            other != from && other != to ==> ledger.transferred(
                from,
                to,
                value,
            ).accounts.contains_key(other) == ledger.accounts.contains_key(other)
                && ledger.transferred(from, to, value).accounts[other] == ledger.accounts[other],
{
    assert(ledger.accounts.contains_key(from));
    assert(ledger.accounts.contains_key(to));
    let debited = ledger.changed(from, value, Operation::TransferDecrease);
    lemma_changed_wf(ledger, from, value, Operation::TransferDecrease);
    assert(debited.delta_error(to, value, Operation::TransferIncrease) is None);
    lemma_changed_wf(debited, to, value, Operation::TransferIncrease);
}

/// Restoring from accounts that are well-formed under their ids leaves a
/// well-formed ledger, whatever the ledger was, and does not lower the id
/// given last.
pub proof fn lemma_restored_wf(ledger: LedgerView, accounts: Map<u32, AccountView>)
    requires
        accounts_wf(accounts),
    ensures
        ledger.restored(accounts).wf(),
        ledger.restored(accounts).accounts == accounts,
        ledger.restored(accounts).last_id >= ledger.last_id,
{
    lemma_largest_id(accounts, 0);
}

/// After any sequence of calls on a well-formed ledger, the ledger is
/// well-formed.
pub proof fn lemma_steps_wf(ledger: LedgerView, steps: Seq<Step>)
    requires
        ledger.wf(),
    ensures
        after_steps(ledger, steps).wf(),
    decreases steps.len(),
{
    if steps.len() > 0 {
        let before = after_steps(ledger, steps.drop_last());
        lemma_steps_wf(ledger, steps.drop_last());
        match steps.last() {
            Step::Open => {
                if before.can_open() {
                    lemma_opened_wf(before);
                }
            },
            Step::Change { id, value, operation } => {
                if before.delta_error(id, value, operation) is None {
                    lemma_changed_wf(before, id, value, operation);
                }
            },
            Step::Transfer { from, to, value } => {
                if before.transfer_error(from, to, value) is None {
                    lemma_transferred_wf(before, from, to, value);
                }
            },
            Step::Restore { payload, decoded } => {
                if LedgerView::restore_error(payload, decoded) is None {
                    lemma_restored_wf(before, decoded->0);
                }
            },
        }
    }
}

/// No call lowers the id given last.
pub proof fn lemma_last_id_grows(ledger: LedgerView, steps: Seq<Step>)
    ensures
        after_steps(ledger, steps).last_id >= ledger.last_id,
    decreases steps.len(),
{
    if steps.len() > 0 {
        lemma_last_id_grows(ledger, steps.drop_last());
    }
}

/// Ids are not reused. Take any sequence of calls on a well-formed ledger,
/// and an id under which the ledger held an account at any point of it,
/// after the first `earlier` calls. At the end of the sequence that id is at
/// most the id given last, so an account opened then gets another id, and
/// opening it replaces no account.
pub proof fn lemma_ids_are_not_reused(
    ledger: LedgerView,
    steps: Seq<Step>,
    earlier: int,
    id: u32,
)
    requires
        ledger.wf(),
        0 <= earlier <= steps.len(),
        after_steps(ledger, steps.take(earlier)).accounts.contains_key(id),
    ensures
        id <= after_steps(ledger, steps).last_id,
        id != after_steps(ledger, steps).opened().last_id,
        after_steps(ledger, steps).can_open() ==> after_steps(ledger, steps).opened().keeps(
            after_steps(ledger, steps),
        ),
    decreases steps.len() - earlier,
{
    lemma_steps_wf(ledger, steps);
    if after_steps(ledger, steps).can_open() {
        lemma_opened_wf(after_steps(ledger, steps));
    }
    if earlier == steps.len() {
        assert(steps.take(earlier) =~= steps);
    } else {
        assert(steps.drop_last().take(earlier) =~= steps.take(earlier));
        lemma_ids_are_not_reused(ledger, steps.drop_last(), earlier, id);
        lemma_last_id_grows(after_steps(ledger, steps.drop_last()), seq![steps.last()]);
        assert(seq![steps.last()].drop_last() =~= Seq::<Step>::empty());
        assert(after_steps(after_steps(ledger, steps.drop_last()), seq![steps.last()])
            == after_steps(ledger, steps)) by {
            reveal_with_fuel(after_steps, 2);
        }
    }
}

/// After any sequence of calls on the empty ledger, the balance of every
/// account is the one that the last entry of its history left.
pub proof fn lemma_balance_is_last_current(steps: Seq<Step>, id: u32)
    requires
        after_steps(LedgerView::empty(), steps).accounts.contains_key(id),
    ensures
        ({
            let account = after_steps(LedgerView::empty(), steps).accounts[id];
            account.transactions.len() > 0 && account.balance
                == account.transactions.last().current
        }),
{
    lemma_steps_wf(LedgerView::empty(), steps);
}

/// After any sequence of calls on the empty ledger, the ids of the entries of
/// every account's history are their positions: 0, 1, 2 and so on, without a
/// gap, in the order in which the entries were written.
pub proof fn lemma_ids_are_positions(steps: Seq<Step>, id: u32, i: int)
    requires
        after_steps(LedgerView::empty(), steps).accounts.contains_key(id),
        0 <= i < after_steps(LedgerView::empty(), steps).accounts[id].transactions.len(),
    ensures
        after_steps(LedgerView::empty(), steps).accounts[id].transactions[i].id == i,
{
    lemma_steps_wf(LedgerView::empty(), steps);
}

/// After any sequence of calls on the empty ledger, no account's balance is
/// negative.
pub proof fn lemma_balance_not_negative(steps: Seq<Step>, id: u32)
    requires
        after_steps(LedgerView::empty(), steps).accounts.contains_key(id),
    ensures
        after_steps(LedgerView::empty(), steps).accounts[id].balance >= 0,
{
    lemma_steps_wf(LedgerView::empty(), steps);
    let account = after_steps(LedgerView::empty(), steps).accounts[id];
    let n = account.transactions.len() as int;
    if n > 1 {
        assert(account.transactions[n - 1].extends(account.transactions[n - 2]));
    }
}

/// A snapshot of a well-formed ledger's own accounts, under any text that is
/// not empty, is accepted, and restoring from it gives the same ledger.
pub proof fn lemma_restore_own_accounts(ledger: LedgerView, text: Seq<char>)
    requires
        ledger.wf(),
        text.len() > 0,
    ensures
        LedgerView::restore_error(Some(text), Some(ledger.accounts)) is None,
        ledger.restored(ledger.accounts) == ledger,
{
    lemma_largest_id(ledger.accounts, ledger.last_id);
}

/// The account after `n` operations of kind `Replenish` and amount 1, one
/// after the other.
pub open spec fn replenished_by_ones(account: AccountView, n: nat) -> AccountView
    decreases n,
{
    if n == 0 {
        account
    } else {
        replenished_by_ones(account, (n - 1) as nat).applied(1, Operation::Replenish)
    }
}

/// `n` operations of kind `Replenish` and amount 1 on a well-formed account,
/// in whatever order they are carried out one after the other, are all
/// accepted, add exactly `n` to the balance and exactly `n` entries to the
/// history, and leave the entries that were there as they were. The new
/// entries have the next `n` ids, one each, and each starts from the balance
/// that the one before it left: no operation is lost.
pub proof fn lemma_replenished_by_ones(account: AccountView, n: nat)
    requires
        account.wf(),
    ensures
        replenished_by_ones(account, n).wf(),
        replenished_by_ones(account, n).balance == account.balance + n,
        replenished_by_ones(account, n).transactions.len() == account.transactions.len() + n,
        replenished_by_ones(account, n).transactions.subrange(
            0,
            account.transactions.len() as int,
        ) == account.transactions,
        forall|j: int|
            0 <= j < n ==> #[trigger] replenished_by_ones(
                account,
                n,
            ).transactions[account.transactions.len() + j] == TransactionView::record(
                (account.transactions.len() + j) as nat,
                Operation::Replenish,
                account.balance + j,
                1,
            ),
        replenished_by_ones(account, n).accepts(1, Operation::Replenish),
    decreases n,
{
    let len = account.transactions.len() as int;
    if n > 0 {
        let before = replenished_by_ones(account, (n - 1) as nat);
        let after = before.applied(1, Operation::Replenish);
        lemma_replenished_by_ones(account, (n - 1) as nat);
        lemma_applied_wf(before, 1, Operation::Replenish);
        assert(after.transactions.subrange(0, len) =~= before.transactions.subrange(0, len));
        assert forall|j: int| 0 <= j < n implies #[trigger] after.transactions[len + j]
            == TransactionView::record(
            (len + j) as nat,
            Operation::Replenish,
            account.balance + j,
            1,
        ) by {
            if j < n - 1 {
                assert(after.transactions[len + j] == before.transactions[len + j]);
            }
        }
    } else {
        assert(account.transactions.subrange(0, len) =~= account.transactions);
    }
}

} // verus!
