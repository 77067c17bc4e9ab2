//! What the requests read of the transaction that they belong to.

use vstd::prelude::*;

use crate::error::{failed, plain, Error, ErrorKind};

verus! {

/// The mode of a transaction.
#[derive(Clone, Copy, Debug, PartialEq, Eq, Structural)]
pub enum IDBTransactionMode {
    Readonly,
    Readwrite,
    Versionchange,
}

/// Where a transaction stands: whether requests can be placed against it now, and what for.
#[derive(Clone, Copy, Debug, PartialEq, Eq, Structural)]
pub struct TransactionStatus {
    pub mode: IDBTransactionMode,
    /// The transaction's state is active.
    pub active: bool,
    /// The transaction has neither been aborted nor asked to commit.
    pub usable: bool,
    /// The transaction has finished.
    pub finished: bool,
}

impl TransactionStatus {
    /// Requests can be placed against the transaction.
    pub open spec fn accepts_requests(self) -> bool {
        self.active && self.usable
    }

    /// Refuses a request against a transaction that is not active.
    pub fn check_transaction_active(&self) -> (result: Result<(), Error>)
        ensures
            result is Ok <==> self.accepts_requests(),
            result is Err ==> failed(result, plain(ErrorKind::TransactionInactive)),
    {
        if !self.active || !self.usable {
            return Err(Error::plain(ErrorKind::TransactionInactive));
        }
        Ok(())
    }

    /// Refuses a write against a transaction that is not active, or that is read-only.
    pub fn check_readwrite_transaction_active(&self) -> (result: Result<(), Error>)
        ensures
            result is Ok <==> self.accepts_requests() && self.mode != IDBTransactionMode::Readonly,
            !self.accepts_requests() ==> failed(result, plain(ErrorKind::TransactionInactive)),
            self.accepts_requests() && self.mode == IDBTransactionMode::Readonly ==> failed(
                result,
                plain(ErrorKind::ReadOnly),
            ),
    {
        match self.check_transaction_active() {
            Err(error) => return Err(error),
            Ok(()) => {},
        }
        if self.mode == IDBTransactionMode::Readonly {
            return Err(Error::plain(ErrorKind::ReadOnly));
        }
        Ok(())
    }
}

/// The state of a transaction.
#[derive(Clone, Copy, Debug, PartialEq, Eq, Structural)]
pub enum TransactionState {
    Active,
    Inactive,
    Committing,
    Finished,
}

impl TransactionState {
    /// Opens the transaction for the listeners of an event: an inactive transaction becomes
    /// active, and any other state stays.
    pub fn activate_for_event(&mut self)
        ensures
            *final(self) == if *old(self) == TransactionState::Inactive {
                TransactionState::Active
            } else {
                *old(self)
            },
    {
        if *self == TransactionState::Inactive {
            *self = TransactionState::Active;
        }
    }
}

} // verus!
