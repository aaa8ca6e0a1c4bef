//! Execution units and the closed set of dialects that dispatches to them.

use crate::error::{returned_view, DaoError, DaoErrorView, Returned};
use crate::result::{exposed_insert_id, Dialect, QueryResult};
use crate::transaction::{Batch, RequestView};
use vstd::pervasive::cloned;
use vstd::prelude::*;

verus! {

/// An execution unit: one connection pool, bound to one dialect and one
/// target for as long as the unit lives.
///
/// `P` is the driver's pool handle. A unit exists only around a pool that was
/// created, so no unit is ever half usable.
#[derive(Debug)]
pub struct Dao<P> {
    pub pool: P,
}

impl<P> Dao<P> {
    /// The unit around a pool that the driver created.
    pub fn new(pool: P) -> (dao: Dao<P>)
        ensures
            dao.pool == pool,
    {
        Dao { pool }
    }
}

impl<P: Clone> Clone for Dao<P> {
    /// A second handle on the same unit: its pool is a clone of this pool,
    /// which for a reference-counted pool shares the live connections.
    fn clone(&self) -> (copy: Self)
        ensures
            cloned(self.pool, copy.pool),
    {
        Dao { pool: self.pool.clone() }
    }
}

/// The dialect dispatcher: exactly one execution unit, of one of the two
/// dialect families.
#[derive(Debug)]
pub enum DaoOptions<PG, MY> {
    PG(Dao<PG>),
    MY(Dao<MY>),
}

impl<PG: Clone, MY: Clone> Clone for DaoOptions<PG, MY> {
    /// A dispatcher of the same dialect around a clone of the pool.
    fn clone(&self) -> (copy: Self)
        ensures
            match (*self, copy) {
                (DaoOptions::PG(unit), DaoOptions::PG(other)) => cloned(unit.pool, other.pool),
                (DaoOptions::MY(unit), DaoOptions::MY(other)) => cloned(unit.pool, other.pool),
                _ => false,
            },
    {
        match self {
            DaoOptions::PG(unit) => DaoOptions::PG(unit.clone()),
            DaoOptions::MY(unit) => DaoOptions::MY(unit.clone()),
        }
    }
}

/// What the driver reported for one statement.
#[derive(Clone, Copy, Debug, PartialEq, Eq, Structural)]
pub enum ExecReply {
    /// The pool handed out no connection, so the statement was not sent.
    NoConnection,
    /// The backend rejected the statement.
    Rejected,
    /// The backend executed the statement. `last_insert_id` is the generated
    /// key that the driver reported natively, if its dialect reports one.
    Done { rows_affected: u64, last_insert_id: Option<u64> },
}

/// What the caller of a single-statement execution receives.
pub open spec fn exec_returned(dialect: Dialect, statement: Seq<char>, reply: ExecReply) -> Returned {
    match reply {
        ExecReply::NoConnection => Err(DaoErrorView::ConnectionAcquisitionFailed),
        ExecReply::Rejected => Err(DaoErrorView::StatementExecutionFailed { statement }),
        ExecReply::Done { rows_affected, last_insert_id } => Ok(
            QueryResult::Affected {
                rows_affected,
                last_insert_id: exposed_insert_id(dialect, last_insert_id),
            },
        ),
    }
}

impl<PG, MY> DaoOptions<PG, MY> {
    /// The dialect of the wrapped unit.
    pub open spec fn dialect_of(&self) -> Dialect {
        match self {
            DaoOptions::PG(_) => Dialect::Postgres,
            DaoOptions::MY(_) => Dialect::MySql,
        }
    }

    /// The dialect of the wrapped unit.
    pub fn dialect(&self) -> (dialect: Dialect)
        ensures
            dialect == self.dialect_of(),
    {
        match self {
            DaoOptions::PG(_) => Dialect::Postgres,
            DaoOptions::MY(_) => Dialect::MySql,
        }
    }

    /// Normalizes what the driver reported for the single statement `query`,
    /// run on a connection of this unit's pool.
    ///
    /// A success carries the driver's row count; the generated key is
    /// present only as this dialect exposes it. A failure is returned as it
    /// came, once: nothing is retried and nothing is turned into an empty
    /// success.
    pub fn exec(&self, query: &str, reply: ExecReply) -> (returned: Result<QueryResult, DaoError>)
        ensures
            returned_view(returned) == exec_returned(self.dialect_of(), query@, reply),
    {
        match reply {
            ExecReply::NoConnection => Err(DaoError::ConnectionAcquisitionFailed),
            ExecReply::Rejected => Err(
                DaoError::StatementExecutionFailed { statement: query.to_owned() },
            ),
            ExecReply::Done { rows_affected, last_insert_id } => Ok(
                QueryResult::affected(self.dialect(), rows_affected, last_insert_id),
            ),
        }
    }

    /// Opens the exchange that runs `seq_query`, in the order given, inside
    /// one transaction on a connection of this unit's pool.
    ///
    /// The exchange is the same for both dialects: a batch of mixed
    /// statements has no single row count, so its success is a bare outcome.
    pub fn seq_exec<'a>(&self, seq_query: &'a Vec<String>) -> (batch: Batch<'a>)
        ensures
            batch.statements() == seq_query.deep_view(),
            batch.pending() == RequestView::Begin,
    {
        Batch::start(seq_query)
    }
}

} // verus!
