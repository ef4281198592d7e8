//! The state that the operations of a running service share.

use crate::cache::{Cache, CacheImpl};
use crate::ledger::LedgerView;
use vstd::prelude::*;

verus! {

/// The service's state: the ledger store.
#[derive(Debug)]
pub struct Storage {
    pub db: CacheImpl,
}

impl View for Storage {
    type V = LedgerView;

    open spec fn view(&self) -> LedgerView {
        self.db@
    }
}

impl Default for Storage {
    fn default() -> (storage: Self)
        ensures
            storage@ == LedgerView::empty(),
            storage.wf(),
    {
        Storage { db: CacheImpl::default() }
    }
}

/// A state that holds a ledger store: what the operations of the ledger take.
pub trait Storages: View<V = LedgerView> {
    type CacheImpl: Cache;

    /// The store, to be read.
    fn db_ref(&self) -> (db: &Self::CacheImpl)
        ensures
            db@ == self@,
    ;

    /// The store, to be changed in place: what the caller leaves in it is
    /// what the state then holds.
    fn db(&mut self) -> (db: &mut Self::CacheImpl)
        ensures
            db@ == old(self)@,
            final(self)@ == final(db)@,
    ;
}

impl Storages for Storage {
    type CacheImpl = CacheImpl;

    fn db_ref(&self) -> (db: &CacheImpl)
        ensures
            *db == self.db,
    {
        &self.db
    }

    fn db(&mut self) -> (db: &mut CacheImpl)
        ensures
            *db == old(self).db,
            final(self).db == *final(db),
    {
        &mut self.db
    }
}

impl Storage {
    /// Whether the ledger is well-formed.
    pub open spec fn wf(&self) -> bool {
        self@.wf()
    }

    /// Checks the ledger against `wf`.
    pub fn is_valid(&self) -> (ok: bool)
        ensures
            ok == self.wf(),
    {
        self.db.is_valid()
    }

    /// Whether one more account can be opened: the next id fits.
    pub fn can_open(&self) -> (ok: bool)
        ensures
            ok == self@.can_open(),
    {
        self.db.id < u32::MAX
    }

    /// Whether the history of account `account_id`, if the ledger has it, can
    /// take one more entry.
    pub fn has_room(&self, account_id: u32) -> (ok: bool)
        ensures
            ok == self@.has_room(account_id),
    {
        match self.db.get_account(account_id) {
            Ok(account) => {
                assert(account@.transactions.len() == account.transactions.len());
                account.transactions.len() <= u32::MAX as usize
            },
            Err(_) => true,
        }
    }
}

} // verus!
