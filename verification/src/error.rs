//! The closed vocabulary into which every failure is normalized.

use crate::result::QueryResult;
use vstd::prelude::*;

verus! {

/// A normalized failure.
///
/// Each variant carries the context needed to diagnose it without asking the
/// backend again.
#[derive(Debug, PartialEq, Eq)]
pub enum DaoError {
    /// The pool handed out no connection: nothing was executed.
    ConnectionAcquisitionFailed,
    /// The backend rejected `statement`.
    StatementExecutionFailed { statement: String },
    /// Every statement ran, but the transaction could not be committed.
    TransactionCommitFailed,
    /// The registry holds no connection under `id`.
    IdentifierNotFound { id: String },
    /// The pool of a new execution unit could not be created.
    PoolCreationFailed,
}

/// The mathematical value of a [`DaoError`]: its texts as character sequences.
pub enum DaoErrorView {
    ConnectionAcquisitionFailed,
    StatementExecutionFailed { statement: Seq<char> },
    TransactionCommitFailed,
    IdentifierNotFound { id: Seq<char> },
    PoolCreationFailed,
}

impl View for DaoError {
    type V = DaoErrorView;

    open spec fn view(&self) -> DaoErrorView {
        match *self {
            DaoError::ConnectionAcquisitionFailed => DaoErrorView::ConnectionAcquisitionFailed,
            DaoError::StatementExecutionFailed { statement } => DaoErrorView::StatementExecutionFailed {
                statement: statement@,
            },
            DaoError::TransactionCommitFailed => DaoErrorView::TransactionCommitFailed,
            DaoError::IdentifierNotFound { id } => DaoErrorView::IdentifierNotFound { id: id@ },
            DaoError::PoolCreationFailed => DaoErrorView::PoolCreationFailed,
        }
    }
}

/// What a caller receives from an execution, as a mathematical value.
pub type Returned = Result<QueryResult, DaoErrorView>;

/// The mathematical value of an execution's return value.
pub open spec fn returned_view(returned: Result<QueryResult, DaoError>) -> Returned {
    match returned {
        Ok(result) => Ok(result),
        Err(error) => Err(error@),
    }
}

impl DaoErrorView {
    /// Whether the failure leaves the connection usable for further calls.
    ///
    /// Only a failed pool creation is fatal: a unit without a pool has no
    /// valid state, so it must never be registered.
    pub open spec fn recoverable(self) -> bool {
        !(self is PoolCreationFailed)
    }
}

impl Clone for DaoError {
    fn clone(&self) -> (copy: Self)
        ensures
            copy == *self,
    {
        match self {
            DaoError::ConnectionAcquisitionFailed => DaoError::ConnectionAcquisitionFailed,
            DaoError::StatementExecutionFailed { statement } => DaoError::StatementExecutionFailed {
                statement: statement.clone(),
            },
            DaoError::TransactionCommitFailed => DaoError::TransactionCommitFailed,
            DaoError::IdentifierNotFound { id } => DaoError::IdentifierNotFound { id: id.clone() },
            DaoError::PoolCreationFailed => DaoError::PoolCreationFailed,
        }
    }
}

impl DaoError {
    /// Whether the caller may go on using the connection after this failure.
    pub fn is_recoverable(&self) -> (r: bool)
        ensures
            r == self@.recoverable(),
    {
        match self {
            DaoError::PoolCreationFailed => false,
            _ => true,
        }
    }
}

} // verus!
