//! The backend-agnostic shapes that every execution path returns through.

use vstd::prelude::*;

verus! {

/// The SQL dialect family an execution unit is bound to.
#[derive(Clone, Copy, Debug, PartialEq, Eq, Structural)]
pub enum Dialect {
    /// Postgres-compatible backends, which report no generated key.
    Postgres,
    /// MySQL-compatible backends, which report the last generated key natively.
    MySql,
}

/// A normalized execution result.
#[derive(Clone, Copy, Debug, PartialEq, Eq, Structural)]
pub enum QueryResult {
    /// The outcome of one statement.
    Affected { rows_affected: u64, last_insert_id: Option<u64> },
    /// The outcome of a completed multi-statement transaction.
    Outcome { success: bool },
}

/// The generated key a dialect exposes, given what its driver reported.
///
/// A Postgres-family backend never exposes one, whatever the driver said; a
/// MySQL-family backend exposes exactly what the driver reported.
pub open spec fn exposed_insert_id(dialect: Dialect, reported: Option<u64>) -> Option<u64> {
    match dialect {
        Dialect::Postgres => None,
        Dialect::MySql => reported,
    }
}

impl QueryResult {
    /// The single-statement result for `dialect`, from the driver's row count
    /// and the generated key it reported, if any.
    pub fn affected(dialect: Dialect, rows_affected: u64, reported: Option<u64>) -> (r: QueryResult)
        ensures
            r == (QueryResult::Affected {
                rows_affected,
                last_insert_id: exposed_insert_id(dialect, reported),
            }),
    {
        let last_insert_id = match dialect {
            Dialect::Postgres => None,
            Dialect::MySql => reported,
        };
        QueryResult::Affected { rows_affected, last_insert_id }
    }

    /// The result of a transaction that committed.
    pub fn committed() -> (r: QueryResult)
        ensures
            r == (QueryResult::Outcome { success: true }),
    {
        QueryResult::Outcome { success: true }
    }
}

} // verus!
