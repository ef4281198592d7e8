//! A bank ledger: accounts with append-only transaction histories, balance
//! operations, transfers between accounts and whole-ledger snapshots.
//!
//! Amounts are whole numbers of the smallest currency unit. The amount of one
//! operation is an `i64`; balances are `i128`, which no history can overflow.
//!
//! `ledger` holds the ledger as a mathematical record and says what each
//! operation makes of it; `usecases` holds the operations themselves, whose
//! contracts speak of that record; `laws` holds what follows for every ledger
//! that the operations can produce. An operation takes the state it changes
//! by `&mut`: it has the ledger to itself from its first check to its last
//! write, so a refused operation changes nothing and a transfer writes both
//! of its entries or neither.

pub mod account;
pub mod cache;
pub mod errors;
pub mod laws;
pub mod ledger;
pub mod storage;
pub mod transaction;
pub mod usecases;
