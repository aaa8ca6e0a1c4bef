//! The exchange by which an ordered batch of statements runs inside one
//! transaction.
//!
//! The engine asks the driver for one thing at a time: to begin a
//! transaction on a pooled connection, to execute the next statement inside
//! it, or to commit it. The driver answers each request with success or
//! failure, and the engine decides what follows. A failure ends the exchange
//! at once; the transaction is then dropped uncommitted, which rolls it back.

use crate::error::{returned_view, DaoError, DaoErrorView, Returned};
use crate::result::QueryResult;
use vstd::prelude::*;

verus! {

/// A request the engine makes of the driver.
#[derive(Clone, Copy, Debug, PartialEq, Eq, Structural)]
pub enum TxRequest {
    /// Take a connection from the pool and begin a transaction on it.
    Begin,
    /// Execute the statement at `index` of the batch inside the transaction.
    Execute { index: usize },
    /// Commit the transaction.
    Commit,
}

/// The mathematical value of a [`TxRequest`].
pub enum RequestView {
    Begin,
    Execute { index: nat },
    Commit,
}

impl View for TxRequest {
    type V = RequestView;

    open spec fn view(&self) -> RequestView {
        match *self {
            TxRequest::Begin => RequestView::Begin,
            TxRequest::Execute { index } => RequestView::Execute { index: index as nat },
            TxRequest::Commit => RequestView::Commit,
        }
    }
}

/// What follows an answer: another request, or the end of the exchange.
pub enum StepView {
    Ask(RequestView),
    Finish(Returned),
}

/// The request that follows once the statements before `next` have succeeded.
pub open spec fn proceed(statements: Seq<Seq<char>>, next: nat) -> RequestView {
    if next < statements.len() {
        RequestView::Execute { index: next }
    } else {
        RequestView::Commit
    }
}

/// What the caller receives once the driver has answered the commit.
pub open spec fn commit_returned(succeeded: bool) -> Returned {
    if succeeded {
        Ok(QueryResult::Outcome { success: true })
    } else {
        Err(DaoErrorView::TransactionCommitFailed)
    }
}

/// The engine's decision when the driver answers `answered` with `succeeded`.
pub open spec fn step(statements: Seq<Seq<char>>, answered: RequestView, succeeded: bool) -> StepView {
    match answered {
        RequestView::Begin => if succeeded {
            StepView::Ask(proceed(statements, 0))
        } else {
            StepView::Finish(Err(DaoErrorView::ConnectionAcquisitionFailed))
        },
        RequestView::Execute { index } => if succeeded {
            StepView::Ask(proceed(statements, index + 1))
        } else {
            StepView::Finish(
                Err(DaoErrorView::StatementExecutionFailed { statement: statements[index as int] }),
            )
        },
        RequestView::Commit => StepView::Finish(commit_returned(succeeded)),
    }
}

/// An exchange in progress: a batch and the request the driver has yet to
/// answer.
#[derive(Debug)]
pub struct Batch<'a> {
    statements: &'a Vec<String>,
    pending: TxRequest,
}

/// What follows an answer, in executable form.
#[derive(Debug)]
pub enum TxStep<'a> {
    /// The exchange goes on: the driver is to perform the batch's request.
    Ask(Batch<'a>),
    /// The exchange is over: this is what the caller receives.
    Finish(Result<QueryResult, DaoError>),
}

impl<'a> View for TxStep<'a> {
    type V = StepView;

    open spec fn view(&self) -> StepView {
        match *self {
            TxStep::Ask(batch) => StepView::Ask(batch.pending()),
            TxStep::Finish(returned) => StepView::Finish(returned_view(returned)),
        }
    }
}

impl<'a> Batch<'a> {
    #[verifier::type_invariant]
    spec fn in_range(&self) -> bool {
        self.pending matches TxRequest::Execute { index } ==> index < self.statements.len()
    }

    /// The texts of the batch, in order.
    pub closed spec fn statements(&self) -> Seq<Seq<char>> {
        self.statements.deep_view()
    }

    /// The request the driver has yet to answer.
    pub closed spec fn pending(&self) -> RequestView {
        self.pending@
    }

    /// Opens the exchange for `statements`: the first request is to begin.
    pub fn start(statements: &'a Vec<String>) -> (batch: Batch<'a>)
        ensures
            batch.statements() == statements.deep_view(),
            batch.pending() == RequestView::Begin,
    {
        Batch { statements, pending: TxRequest::Begin }
    }

    /// The request the driver is to perform next. A statement it names is
    /// one of the batch.
    pub fn request(&self) -> (request: TxRequest)
        ensures
            request@ == self.pending(),
            request matches TxRequest::Execute { index } ==> index < self.statements().len(),
    {
        proof {
            use_type_invariant(self);
        }
        self.pending
    }

    /// Takes the driver's answer to the pending request and decides what
    /// follows.
    pub fn answer(self, succeeded: bool) -> (next: TxStep<'a>)
        ensures
            next@ == step(self.statements(), self.pending(), succeeded),
            next matches TxStep::Ask(batch) ==> batch.statements() == self.statements(),
    {
        proof {
            use_type_invariant(&self);
        }
        let statements = self.statements;
        match self.pending {
            TxRequest::Begin => {
                if succeeded {
                    TxStep::Ask(Batch { statements, pending: next_request(statements, 0) })
                } else {
                    TxStep::Finish(Err(DaoError::ConnectionAcquisitionFailed))
                }
            },
            TxRequest::Execute { index } => {
                if succeeded {
                    TxStep::Ask(Batch { statements, pending: next_request(statements, index + 1) })
                } else {
                    let statement = statements[index].clone();
                    TxStep::Finish(Err(DaoError::StatementExecutionFailed { statement }))
                }
            },
            TxRequest::Commit => {
                if succeeded {
                    TxStep::Finish(Ok(QueryResult::committed()))
                } else {
                    TxStep::Finish(Err(DaoError::TransactionCommitFailed))
                }
            },
        }
    }
}

/// The request that follows once the statements before `next` have succeeded.
fn next_request(statements: &Vec<String>, next: usize) -> (request: TxRequest)
    requires
        next <= statements.len(),
    ensures
        request@ == proceed(statements.deep_view(), next as nat),
        request matches TxRequest::Execute { index } ==> index < statements.len(),
{
    if next < statements.len() {
        TxRequest::Execute { index: next }
    } else {
        TxRequest::Commit
    }
}

} // verus!
