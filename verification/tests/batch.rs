use ua_dao::dao::{Dao, DaoOptions};
use ua_dao::error::DaoError;
use ua_dao::result::QueryResult;
use ua_dao::transaction::{Batch, TxRequest, TxStep};

/// A scripted backend: it performs what it is asked and keeps what a
/// confirmed commit makes durable.
struct Backend {
    refuse_begin: bool,
    refuse_statement: Option<usize>,
    refuse_commit: bool,
    asked: Vec<TxRequest>,
    pending: Vec<String>,
    durable: Vec<String>,
}

impl Backend {
    fn new() -> Backend {
        Backend {
            refuse_begin: false,
            refuse_statement: None,
            refuse_commit: false,
            asked: Vec::new(),
            pending: Vec::new(),
            durable: Vec::new(),
        }
    }

    fn perform(&mut self, statements: &[String], request: TxRequest) -> bool {
        self.asked.push(request);
        match request {
            TxRequest::Begin => !self.refuse_begin,
            TxRequest::Execute { index } => {
                if self.refuse_statement == Some(index) {
                    false
                } else {
                    self.pending.push(statements[index].clone());
                    true
                }
            }
            TxRequest::Commit => {
                if self.refuse_commit {
                    false
                } else {
                    self.durable.append(&mut self.pending);
                    true
                }
            }
        }
    }

    fn run(&mut self, statements: &Vec<String>) -> Result<QueryResult, DaoError> {
        let mut batch = Batch::start(statements);
        let returned = loop {
            let succeeded = self.perform(statements, batch.request());
            match batch.answer(succeeded) {
                TxStep::Ask(next) => batch = next,
                TxStep::Finish(returned) => break returned,
            }
        };
        // a transaction that was not committed is dropped, which rolls it back
        self.pending.clear();
        returned
    }
}

fn texts(statements: &[&str]) -> Vec<String> {
    statements.iter().map(|s| s.to_string()).collect()
}

#[test]
fn empty_batch_commits_trivially() {
    let statements: Vec<String> = Vec::new();
    let mut backend = Backend::new();
    assert_eq!(backend.run(&statements), Ok(QueryResult::Outcome { success: true }));
    assert_eq!(backend.asked, vec![TxRequest::Begin, TxRequest::Commit]);
    assert!(backend.durable.is_empty());
}

#[test]
fn successful_batch_keeps_every_statement() {
    let statements = texts(&["INSERT A", "INSERT B"]);
    let mut backend = Backend::new();
    assert_eq!(backend.run(&statements), Ok(QueryResult::Outcome { success: true }));
    assert_eq!(backend.durable, statements);
    assert_eq!(
        backend.asked,
        vec![
            TxRequest::Begin,
            TxRequest::Execute { index: 0 },
            TxRequest::Execute { index: 1 },
            TxRequest::Commit,
        ]
    );
}

#[test]
fn failing_statement_leaves_nothing_behind() {
    let statements = texts(&["INSERT A", "INSERT B-with-constraint-violation"]);
    let mut backend = Backend::new();
    backend.refuse_statement = Some(1);
    assert_eq!(
        backend.run(&statements),
        Err(DaoError::StatementExecutionFailed {
            statement: String::from("INSERT B-with-constraint-violation")
        })
    );
    assert!(backend.durable.is_empty());
    assert!(!backend.asked.contains(&TxRequest::Commit));
}

#[test]
fn nothing_is_asked_after_the_first_failure() {
    let statements = texts(&["CREATE TABLE t (id INT)", "INSERT bad", "INSERT good", "INSERT late"]);
    let mut backend = Backend::new();
    backend.refuse_statement = Some(1);
    assert_eq!(
        backend.run(&statements),
        Err(DaoError::StatementExecutionFailed { statement: String::from("INSERT bad") })
    );
    assert_eq!(
        backend.asked,
        vec![TxRequest::Begin, TxRequest::Execute { index: 0 }, TxRequest::Execute { index: 1 }]
    );
    assert!(backend.durable.is_empty());
}

#[test]
fn first_statement_failing_is_reported() {
    let statements = texts(&["INSERT A", "INSERT B"]);
    let mut backend = Backend::new();
    backend.refuse_statement = Some(0);
    assert_eq!(
        backend.run(&statements),
        Err(DaoError::StatementExecutionFailed { statement: String::from("INSERT A") })
    );
    assert_eq!(backend.asked, vec![TxRequest::Begin, TxRequest::Execute { index: 0 }]);
}

#[test]
fn missing_connection_means_nothing_happened() {
    let statements = texts(&["INSERT A", "INSERT B"]);
    let mut backend = Backend::new();
    backend.refuse_begin = true;
    assert_eq!(backend.run(&statements), Err(DaoError::ConnectionAcquisitionFailed));
    assert_eq!(backend.asked, vec![TxRequest::Begin]);
    assert!(backend.durable.is_empty());
}

#[test]
fn failed_commit_is_surfaced() {
    let statements = texts(&["INSERT A", "INSERT B"]);
    let mut backend = Backend::new();
    backend.refuse_commit = true;
    assert_eq!(backend.run(&statements), Err(DaoError::TransactionCommitFailed));
    assert_eq!(
        backend.asked,
        vec![
            TxRequest::Begin,
            TxRequest::Execute { index: 0 },
            TxRequest::Execute { index: 1 },
            TxRequest::Commit,
        ]
    );
    assert!(backend.durable.is_empty());
}

#[test]
fn failed_commit_of_an_empty_batch_is_an_error() {
    let statements: Vec<String> = Vec::new();
    let mut backend = Backend::new();
    backend.refuse_commit = true;
    assert_eq!(backend.run(&statements), Err(DaoError::TransactionCommitFailed));
}

#[test]
fn the_three_failures_are_distinct() {
    let statements = texts(&["INSERT A"]);
    let mut no_connection = Backend::new();
    no_connection.refuse_begin = true;
    let mut rejected = Backend::new();
    rejected.refuse_statement = Some(0);
    let mut uncommitted = Backend::new();
    uncommitted.refuse_commit = true;
    let first = no_connection.run(&statements);
    let second = rejected.run(&statements);
    let third = uncommitted.run(&statements);
    assert_ne!(first, second);
    assert_ne!(second, third);
    assert_ne!(first, third);
}

#[test]
fn statements_run_in_the_order_given() {
    let statements = texts(&["one", "two", "three", "four", "five"]);
    let mut backend = Backend::new();
    assert_eq!(backend.run(&statements), Ok(QueryResult::Outcome { success: true }));
    assert_eq!(backend.durable, statements);
    let executed: Vec<usize> = backend
        .asked
        .iter()
        .filter_map(|request| match request {
            TxRequest::Execute { index } => Some(*index),
            _ => None,
        })
        .collect();
    assert_eq!(executed, vec![0, 1, 2, 3, 4]);
}

#[test]
fn every_single_failure_point_is_all_or_nothing() {
    let statements = texts(&["a", "b", "c", "d"]);
    for failing in 0..statements.len() {
        let mut backend = Backend::new();
        backend.refuse_statement = Some(failing);
        assert_eq!(
            backend.run(&statements),
            Err(DaoError::StatementExecutionFailed { statement: statements[failing].clone() })
        );
        assert!(backend.durable.is_empty());
        assert_eq!(backend.asked.len(), failing + 2);
    }
}

#[test]
fn exchange_starts_by_asking_to_begin() {
    let statements = texts(&["INSERT A"]);
    let batch = Batch::start(&statements);
    assert_eq!(batch.request(), TxRequest::Begin);
}

#[test]
fn last_statement_is_followed_by_the_commit() {
    let statements = texts(&["INSERT A"]);
    let batch = Batch::start(&statements);
    let batch = match batch.answer(true) {
        TxStep::Ask(next) => next,
        TxStep::Finish(_) => panic!("the exchange ended before the statement"),
    };
    assert_eq!(batch.request(), TxRequest::Execute { index: 0 });
    let batch = match batch.answer(true) {
        TxStep::Ask(next) => next,
        TxStep::Finish(_) => panic!("the exchange ended before the commit"),
    };
    assert_eq!(batch.request(), TxRequest::Commit);
    assert!(matches!(
        batch.answer(true),
        TxStep::Finish(Ok(QueryResult::Outcome { success: true }))
    ));
}

#[test]
fn both_dialects_open_the_same_exchange() {
    let statements = texts(&["INSERT A", "INSERT B"]);
    let postgres: DaoOptions<u8, u8> = DaoOptions::PG(Dao::new(0));
    let mysql: DaoOptions<u8, u8> = DaoOptions::MY(Dao::new(0));
    for dao in [postgres, mysql] {
        let mut batch = dao.seq_exec(&statements);
        let mut asked = Vec::new();
        let returned = loop {
            asked.push(batch.request());
            match batch.answer(true) {
                TxStep::Ask(next) => batch = next,
                TxStep::Finish(returned) => break returned,
            }
        };
        assert_eq!(returned, Ok(QueryResult::Outcome { success: true }));
        assert_eq!(
            asked,
            vec![
                TxRequest::Begin,
                TxRequest::Execute { index: 0 },
                TxRequest::Execute { index: 1 },
                TxRequest::Commit,
            ]
        );
    }
}
