//! The ledger store: the accounts by id, and the counter that numbers them.

use crate::account::{Account, AccountView};
use crate::errors::AppError;
use crate::ledger::{accounts_wf, ids_within, largest_id, lemma_largest_id, LedgerView};
use std::collections::hash_map::Entry;
use std::collections::HashMap;
use vstd::prelude::*;
use vstd::std_specs::hash::*;
use vstd::std_specs::iter::IteratorSpec;

verus! {

broadcast use vstd::std_specs::hash::group_hash_axioms;

/// The ledger in memory.
#[derive(Debug)]
pub struct CacheImpl {
    /// The id given to the account created last; 0 before the first.
    pub id: u32,
    pub cache: HashMap<u32, Account>,
}

/// The accounts of a map, each as a mathematical record.
pub open spec fn accounts_view(accounts: Map<u32, Account>) -> Map<u32, AccountView> {
    accounts.map_values(|a: Account| a@)
}

/// To put an account under an id and then take the records, or to take the
/// records and then put the account's record under the id, gives the same.
pub proof fn lemma_view_of_insert(accounts: Map<u32, Account>, id: u32)
    ensures
        forall|account: Account| #[trigger]
            accounts_view(accounts.insert(id, account)) == accounts_view(accounts).insert(
                id,
                account@,
            ),
{
    assert forall|account: Account| #[trigger]
        accounts_view(accounts.insert(id, account)) == accounts_view(accounts).insert(
            id,
            account@,
        ) by {
        assert(accounts_view(accounts.insert(id, account)) =~= accounts_view(accounts).insert(
            id,
            account@,
        ));
    }
}

impl View for CacheImpl {
    type V = LedgerView;

    open spec fn view(&self) -> LedgerView {
        LedgerView { last_id: self.id as nat, accounts: accounts_view(self.cache@) }
    }
}

impl Default for CacheImpl {
    fn default() -> (db: Self)
        ensures
            db@ == LedgerView::empty(),
            db.wf(),
    {
        let db = CacheImpl { id: 0, cache: HashMap::new() };
        assert(db@.accounts =~= Map::empty());
        db
    }
}

/// The characters of a snapshot's text, if there is a text.
pub open spec fn text_of(payload: Option<&str>) -> Option<Seq<char>> {
    match payload {
        Some(text) => Some(text@),
        None => None,
    }
}

/// The accounts that a snapshot's text stands for, if it stands for any, each
/// as a mathematical record.
pub open spec fn accounts_of(decoded: Option<HashMap<u32, Account>>) -> Option<
    Map<u32, AccountView>,
> {
    match decoded {
        Some(accounts) => Some(accounts_view(accounts@)),
        None => None,
    }
}

/// Whether the account of an entry is well-formed and has the entry's key as
/// its id.
pub open spec fn entry_wf(entry: (&u32, &Account)) -> bool {
    entry.1.wf() && entry.1.id == *entry.0
}

/// Checks that each account of `accounts` is well-formed and stands under its
/// own id.
pub fn accounts_valid(accounts: &HashMap<u32, Account>) -> (ok: bool)
    ensures
        ok == accounts_wf(accounts_view(accounts@)),
{
    let mut ok = true;
    for entry in iter: accounts.iter()
        invariant
            iter.seq() == accounts.iter().remaining(),
            ok == (forall|j: int|
                0 <= j < iter.index() ==> entry_wf(#[trigger] iter.seq()[j])),
    {
        let (id, account) = entry;
        if account.id != *id || !account.is_valid() {
            ok = false;
        }
    }
    proof {
        let entries = accounts.iter().remaining();
        let view = accounts_view(accounts@);
        if ok {
            assert forall|id: u32| #[trigger] view.contains_key(id) implies view[id].wf()
                && view[id].id == id by {
                let entry = (&id, &accounts@[id]);
                assert(entries.contains(entry));
                let j = choose|j: int| 0 <= j < entries.len() && entries[j] == entry;
                assert(entry_wf(entries[j]));
            }
        } else {
            let j = choose|j: int| 0 <= j < entries.len() && !entry_wf(#[trigger] entries[j]);
            assert(accounts@.contains_key(*entries[j].0));
            assert(view.contains_key(*entries[j].0));
        }
    }
    ok
}

/// The largest id under which `accounts` holds an account; 0 where it holds
/// none.
pub fn largest_key(accounts: &HashMap<u32, Account>) -> (largest: u32)
    ensures
        largest == largest_id(accounts_view(accounts@)),
{
    let mut largest: u32 = 0;
    for entry in iter: accounts.iter()
        invariant
            iter.seq() == accounts.iter().remaining(),
            forall|j: int| 0 <= j < iter.index() ==> *(#[trigger] iter.seq()[j]).0 <= largest,
            largest == 0 || accounts@.contains_key(largest),
    {
        let (id, _) = entry;
        if *id > largest {
            largest = *id;
        }
    }
    proof {
        let entries = accounts.iter().remaining();
        let view = accounts_view(accounts@);
        assert forall|id: u32| #[trigger] view.contains_key(id) implies id <= largest by {
            let entry = (&id, &accounts@[id]);
            assert(entries.contains(entry));
            let j = choose|j: int| 0 <= j < entries.len() && entries[j] == entry;
            assert(*entries[j].0 <= largest);
        }
        assert(largest == 0 || view.contains_key(largest));
        lemma_largest_id(view, largest as nat);
    }
    largest
}

/// The ledger store: what the operations of the ledger ask of the place that
/// holds the accounts.
pub trait Cache: View<V = LedgerView> {
    /// Stores `account` as a new account under the id after the last one
    /// given, which it also writes into the account, and returns that id.
    fn create_account(&mut self, account: Account) -> (id: u32)
        requires
            old(self)@.can_open(),
        ensures
            id == old(self)@.last_id + 1,
            final(self)@ == old(self)@.created(account@),
            ids_within(old(self)@.accounts, old(self)@.last_id) ==> {
                &&& !old(self)@.accounts.contains_key(id)
                &&& final(self)@.keeps(old(self)@)
                &&& ids_within(final(self)@.accounts, final(self)@.last_id)
            },
    ;

    /// Whether there is an account under `acc_id`.
    fn check_key(&self, acc_id: u32) -> (found: bool)
        ensures
            found == self@.accounts.contains_key(acc_id),
    ;

    /// The account under `acc_id`, to be changed in place; what the caller
    /// leaves in it is what the ledger then holds under `acc_id`.
    fn get_mut_account(&mut self, acc_id: u32) -> (found: Result<&mut Account, AppError>)
        ensures
            match found {
                Ok(account) => {
                    &&& old(self)@.accounts.contains_key(acc_id)
                    &&& account@ == old(self)@.accounts[acc_id]
                    &&& final(self)@ == old(self)@.replaced(acc_id, final(account)@)
                },
                Err(e) => {
                    &&& !old(self)@.accounts.contains_key(acc_id)
                    &&& e == AppError::AccountNotExists(acc_id)
                    &&& final(self)@ == old(self)@
                },
            },
    ;

    /// The account under `acc_id`.
    fn get_account(&self, acc_id: u32) -> (found: Result<&Account, AppError>)
        ensures
            match found {
                Ok(account) => self@.accounts.contains_key(acc_id) && account@
                    == self@.accounts[acc_id],
                Err(e) => !self@.accounts.contains_key(acc_id) && e == AppError::AccountNotExists(
                    acc_id,
                ),
            },
    ;

    /// A copy of all accounts by id.
    fn get_accounts(&self) -> (accounts: HashMap<u32, Account>)
        ensures
            accounts_view(accounts@) == self@.accounts,
    ;

    /// Replaces the accounts by those of a snapshot, or refuses the snapshot
    /// and changes nothing. `payload` is the snapshot's text, if it could be
    /// read; `decoded` holds the accounts that the text stands for, if it
    /// stands for any. Where a restored account's id is above the id given
    /// last, the greatest of them becomes the id given last.
    fn backup_load(
        &mut self,
        payload: Option<&str>,
        decoded: Option<HashMap<u32, Account>>,
    ) -> (r: Result<(), AppError>)
        ensures
            match r {
                Ok(_) => {
                    &&& LedgerView::restore_error(text_of(payload), accounts_of(decoded)) is None
                    &&& final(self)@ == old(self)@.restored(accounts_of(decoded)->0)
                    &&& final(self)@.wf()
                },
                Err(e) => {
                    &&& LedgerView::restore_error(text_of(payload), accounts_of(decoded)) == Some(e)
                    &&& final(self)@ == old(self)@
                },
            },
    ;
}

impl CacheImpl {
    /// Whether the ledger is well-formed.
    pub open spec fn wf(&self) -> bool {
        self@.wf()
    }

    /// Checks the ledger against `wf`.
    pub fn is_valid(&self) -> (ok: bool)
        ensures
            ok == self.wf(),
    {
        proof {
            lemma_largest_id(self@.accounts, self.id as nat);
        }
        accounts_valid(&self.cache) && largest_key(&self.cache) <= self.id
    }
}

impl Cache for CacheImpl {
    fn create_account(&mut self, account: Account) -> (id: u32) {
        let mut account = account;
        self.id += 1;
        account.id = self.id;
        self.cache.insert(self.id, account);
        assert(final(self)@.accounts =~= old(self)@.created(account@).accounts);
        self.id
    }

    fn check_key(&self, acc_id: u32) -> (found: bool) {
        self.cache.contains_key(&acc_id)
    }

    fn get_mut_account(&mut self, acc_id: u32) -> (found: Result<&mut Account, AppError>)
        ensures
            final(self).id == old(self).id,
            match found {
                Ok(account) => {
                    &&& *account == old(self).cache@[acc_id]
                    &&& final(self).cache@ == old(self).cache@.insert(acc_id, *final(account))
                },
                Err(e) => final(self).cache@ == old(self).cache@,
            },
    {
        proof {
            lemma_view_of_insert(self.cache@, acc_id);
            if !self.cache@.contains_key(acc_id) {
                assert(self.cache@.remove(acc_id) =~= self.cache@);
            }
        }
        match self.cache.entry(acc_id) {
            Entry::Occupied(entry) => Ok(entry.into_mut()),
            Entry::Vacant(_) => Err(AppError::AccountNotExists(acc_id)),
        }
    }

    fn get_account(&self, acc_id: u32) -> (found: Result<&Account, AppError>)
        ensures
            found matches Ok(account) ==> *account == self.cache@[acc_id],
    {
        match self.cache.get(&acc_id) {
            Some(account) => Ok(account),
            None => Err(AppError::AccountNotExists(acc_id)),
        }
    }

    fn get_accounts(&self) -> (accounts: HashMap<u32, Account>)
        ensures
            accounts@ == self.cache@,
    {
        self.cache.clone()
    }

    fn backup_load(
        &mut self,
        payload: Option<&str>,
        decoded: Option<HashMap<u32, Account>>,
    ) -> (r: Result<(), AppError>)
        ensures
            match r {
                Ok(_) => final(self).id >= old(self).id && final(self).cache@ == decoded->0@,
                Err(e) => *final(self) == *old(self),
            },
    {
        let text = match payload {
            Some(text) => text,
            None => {
                return Err(AppError::BackupLoadFile);
            },
        };
        if text.is_empty() {
            return Err(AppError::EmptyBackupFile);
        }
        let accounts = match decoded {
            Some(accounts) => accounts,
            None => {
                return Err(AppError::InvalidBackupFile);
            },
        };
        if !accounts_valid(&accounts) {
            return Err(AppError::InvalidBackupFile);
        }
        let largest: u32 = largest_key(&accounts);
        proof {
            lemma_largest_id(accounts_view(accounts@), largest as nat);
        }
        if largest > self.id {
            self.id = largest;
        }
        self.cache = accounts;
        Ok(())
    }
}

} // verus!
