//! The handle through which every statement reaches the storage backend,
//! and which opens and closes transactions.

use vstd::prelude::*;
use crate::directory::Directory;
use crate::error::StorageError;

verus! {

/// What an executor stands for: the data that is durably stored; while a
/// transaction is open, the data as the transaction has changed it so far;
/// and the number of transactions that were opened on it.
#[verifier::ext_equal]
pub struct StoreState {
    pub committed: Directory,
    pub pending: Option<Directory>,
    pub opened: nat,
}

impl StoreState {
    /// Nothing is stored, and no transaction was opened yet.
    pub open spec fn initial() -> StoreState {
        StoreState { committed: Directory::empty(), pending: None, opened: 0 }
    }

    /// A transaction is open.
    pub open spec fn in_transaction(self) -> bool {
        self.pending is Some
    }

    /// The data that a statement sees: inside a transaction what the
    /// transaction has made of it, else what is stored.
    pub open spec fn visible(self) -> Directory {
        match self.pending {
            Some(directory) => directory,
            None => self.committed,
        }
    }

    /// The state after a transaction was opened. It starts from the stored
    /// data.
    pub open spec fn begun(self) -> StoreState {
        StoreState { pending: Some(self.committed), opened: self.opened + 1, ..self }
    }

    /// The state after the open transaction was committed: what it made of
    /// the data is stored.
    pub open spec fn ended(self) -> StoreState {
        StoreState { committed: self.visible(), pending: None, ..self }
    }

    /// The state after the open transaction was dropped: the stored data is
    /// what it was.
    pub open spec fn dropped(self) -> StoreState {
        StoreState { pending: None, ..self }
    }

    /// The state after a statement has turned the visible data into `next`.
    /// Inside a transaction the stored data is untouched.
    pub open spec fn wrote(self, next: Directory) -> StoreState {
        if self.pending is Some {
            StoreState { pending: Some(next), ..self }
        } else {
            StoreState { committed: next, ..self }
        }
    }

    /// What holds of the state `after` a statement that failed in the state
    /// `self`: the stored data is the same, a transaction is open after it
    /// if and only if one was open before, and none was opened.
    pub open spec fn failed(self, after: StoreState) -> bool {
        &&& after.committed == self.committed
        &&& after.in_transaction() == self.in_transaction()
        &&& after.opened == self.opened
    }
}

/// A connection to the storage backend. Repositories run their statements
/// through it; the workflow opens, commits and rolls back transactions on it.
///
/// `reliable` is the backend's own promise that its calls do not fail for
/// reasons that the model does not show. A backend that cannot promise this
/// says `false`.
pub trait Executor {
    /// The stored data and the open transaction, if any.
    spec fn view(&self) -> StoreState;

    /// Calls on this executor fail only where their contract names the
    /// reason.
    spec fn reliable(&self) -> bool;

    /// Whether a transaction is open.
    fn in_transaction(&self) -> (open: bool)
        ensures
            open == self@.in_transaction(),
    ;

    /// Opens a transaction. It starts from the stored data.
    fn begin(&mut self) -> (result: Result<(), StorageError>)
        requires
            !old(self)@.in_transaction(),
        ensures
            final(self).reliable() == old(self).reliable(),
            old(self).reliable() ==> result is Ok,
            result is Ok ==> final(self)@ == old(self)@.begun(),
            result is Err ==> final(self)@ == old(self)@,
    ;

    /// Commits the open transaction: all of its changes are stored, or, on
    /// failure, none. Either way the transaction is closed.
    fn commit(&mut self) -> (result: Result<(), StorageError>)
        requires
            old(self)@.in_transaction(),
        ensures
            final(self).reliable() == old(self).reliable(),
            old(self).reliable() ==> result is Ok,
            result is Ok ==> final(self)@ == old(self)@.ended(),
            result is Err ==> final(self)@ == old(self)@.dropped(),
    ;

    /// Closes the open transaction and drops its changes.
    fn rollback(&mut self)
        requires
            old(self)@.in_transaction(),
        ensures
            final(self).reliable() == old(self).reliable(),
            final(self)@ == old(self)@.dropped(),
    ;
}

} // verus!
