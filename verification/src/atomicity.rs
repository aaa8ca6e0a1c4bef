//! Whole exchanges, and what they leave behind in the backend.
//!
//! A driver is modelled by the answer it gives to each request. Since an
//! exchange makes every request at most once, that covers every way in which
//! a backend can behave during one batch.

use crate::error::{DaoErrorView, Returned};
use crate::result::QueryResult;
use crate::transaction::{commit_returned, proceed, step, RequestView, StepView};
use vstd::prelude::*;

verus! {

/// A driver's behaviour during one exchange: whether each request succeeds.
pub type Answers = spec_fn(RequestView) -> bool;

/// The requests made of the driver, in order, and what the caller received.
pub struct Exchange {
    pub asked: Seq<RequestView>,
    pub returned: Returned,
}

/// An upper bound on the requests still to come, `pending` included.
pub open spec fn remaining(count: nat, pending: RequestView) -> nat {
    match pending {
        RequestView::Begin => count + 3,
        RequestView::Execute { index } => if index < count {
            (count - index + 1) as nat
        } else {
            2
        },
        RequestView::Commit => 1,
    }
}

/// The exchange that unfolds from `pending` on when the driver behaves as
/// `answers` tells.
pub open spec fn exchange(statements: Seq<Seq<char>>, pending: RequestView, answers: Answers) -> Exchange
    decreases remaining(statements.len(), pending),
{
    match step(statements, pending, answers(pending)) {
        StepView::Ask(next) => {
            let rest = exchange(statements, next, answers);
            Exchange { asked: seq![pending] + rest.asked, returned: rest.returned }
        },
        StepView::Finish(returned) => Exchange { asked: seq![pending], returned },
    }
}

/// The whole exchange for a batch.
pub open spec fn batch_exchange(statements: Seq<Seq<char>>, answers: Answers) -> Exchange {
    exchange(statements, RequestView::Begin, answers)
}

/// Whether the driver accepts each of the first `bound` statements.
pub open spec fn accepts_first(answers: Answers, bound: nat) -> bool {
    forall|j: nat| j < bound ==> #[trigger] answers(RequestView::Execute { index: j })
}

/// The requests to execute the first `bound` statements, in order.
pub open spec fn executions(bound: nat) -> Seq<RequestView> {
    Seq::new(bound, |j: int| RequestView::Execute { index: j as nat })
}

/// The texts of the statements that the requests in `asked` had the backend
/// execute with success, in order.
pub open spec fn executed(statements: Seq<Seq<char>>, asked: Seq<RequestView>, answers: Answers) -> Seq<
    Seq<char>,
>
    decreases asked.len(),
{
    if asked.len() == 0 {
        Seq::empty()
    } else {
        let before = executed(statements, asked.drop_last(), answers);
        match asked.last() {
            RequestView::Execute { index } => if answers(asked.last()) {
                before.push(statements[index as int])
            } else {
                before
            },
            _ => before,
        }
    }
}

/// The statements whose effects the backend keeps after the exchange.
///
/// A transactional backend keeps what was executed inside a transaction if
/// and only if it confirmed the commit of that transaction.
pub open spec fn durable(statements: Seq<Seq<char>>, answers: Answers) -> Seq<Seq<char>> {
    let asked = batch_exchange(statements, answers).asked;
    if asked.contains(RequestView::Commit) && answers(RequestView::Commit) {
        executed(statements, asked, answers)
    } else {
        Seq::empty()
    }
}

/// From statement `from` on, when the driver accepts every statement up to
/// `rejected` and rejects that one.
proof fn lemma_rejected_from(statements: Seq<Seq<char>>, answers: Answers, from: nat, rejected: nat)
    requires
        from <= rejected < statements.len(),
        forall|j: nat| from <= j < rejected ==> #[trigger] answers(RequestView::Execute { index: j }),
        !answers(RequestView::Execute { index: rejected }),
    ensures
        exchange(statements, RequestView::Execute { index: from }, answers) == (Exchange {
            asked: executions(rejected + 1).skip(from as int),
            returned: Err(
                DaoErrorView::StatementExecutionFailed { statement: statements[rejected as int] },
            ),
        }),
    decreases rejected - from,
{
    if from < rejected {
        lemma_rejected_from(statements, answers, from + 1, rejected);
    }
    let found = exchange(statements, RequestView::Execute { index: from }, answers);
    assert(found.asked =~= executions(rejected + 1).skip(from as int));
}

/// From statement `from` on, when the driver accepts every statement left.
proof fn lemma_accepted_from(statements: Seq<Seq<char>>, answers: Answers, from: nat)
    requires
        from <= statements.len(),
        forall|j: nat| from <= j < statements.len() ==> #[trigger] answers(RequestView::Execute { index: j }),
    ensures
        exchange(statements, proceed(statements, from), answers) == (Exchange {
            asked: executions(statements.len()).skip(from as int).push(RequestView::Commit),
            returned: commit_returned(answers(RequestView::Commit)),
        }),
    decreases statements.len() - from,
{
    if from < statements.len() {
        lemma_accepted_from(statements, answers, from + 1);
    }
    let found = exchange(statements, proceed(statements, from), answers);
    assert(found.asked =~= executions(statements.len()).skip(from as int).push(RequestView::Commit));
}

/// What a run of accepted execution requests had executed.
proof fn lemma_executed_run(statements: Seq<Seq<char>>, answers: Answers, bound: nat)
    requires
        bound <= statements.len(),
        accepts_first(answers, bound),
    ensures
        executed(statements, seq![RequestView::Begin] + executions(bound), answers) == statements.take(
            bound as int,
        ),
    decreases bound,
{
    let asked = seq![RequestView::Begin] + executions(bound);
    if bound == 0 {
        assert(executed(statements, asked.drop_last(), answers) =~= Seq::<Seq<char>>::empty());
    } else {
        let shorter = (bound - 1) as nat;
        lemma_executed_run(statements, answers, shorter);
        assert(asked.drop_last() =~= seq![RequestView::Begin] + executions(shorter));
    }
}

/// The first statement that the driver rejects, when it rejects any.
pub proof fn first_rejected(answers: Answers, bound: nat) -> (rejected: nat)
    requires
        !accepts_first(answers, bound),
    ensures
        rejected < bound,
        accepts_first(answers, rejected),
        !answers(RequestView::Execute { index: rejected }),
    decreases bound,
{
    if bound == 0 {
        0
    } else {
        let shorter = (bound - 1) as nat;
        if accepts_first(answers, shorter) {
            shorter
        } else {
            first_rejected(answers, shorter)
        }
    }
}

/// Without a connection nothing else is asked of the driver, and the caller
/// learns that nothing happened.
pub proof fn exchange_without_connection(statements: Seq<Seq<char>>, answers: Answers)
    requires
        !answers(RequestView::Begin),
    ensures
        batch_exchange(statements, answers) == (Exchange {
            asked: seq![RequestView::Begin],
            returned: Err(DaoErrorView::ConnectionAcquisitionFailed),
        }),
{
}

/// The statements are executed in the order given, up to and including the
/// first that the driver rejects. Nothing is asked after it: no later
/// statement, and no commit. The caller receives that statement's failure.
pub proof fn exchange_with_rejection(statements: Seq<Seq<char>>, answers: Answers, rejected: nat)
    requires
        answers(RequestView::Begin),
        rejected < statements.len(),
        accepts_first(answers, rejected),
        !answers(RequestView::Execute { index: rejected }),
    ensures
        batch_exchange(statements, answers) == (Exchange {
            asked: seq![RequestView::Begin] + executions(rejected + 1),
            returned: Err(
                DaoErrorView::StatementExecutionFailed { statement: statements[rejected as int] },
            ),
        }),
{
    lemma_rejected_from(statements, answers, 0, rejected);
    assert(executions(rejected + 1).skip(0) =~= executions(rejected + 1));
}

/// When the driver accepts every statement, all of them are executed in the
/// order given and the commit follows; the caller receives the commit's
/// outcome.
pub proof fn exchange_with_commit(statements: Seq<Seq<char>>, answers: Answers)
    requires
        answers(RequestView::Begin),
        accepts_first(answers, statements.len()),
    ensures
        batch_exchange(statements, answers) == (Exchange {
            asked: (seq![RequestView::Begin] + executions(statements.len())).push(RequestView::Commit),
            returned: commit_returned(answers(RequestView::Commit)),
        }),
{
    lemma_accepted_from(statements, answers, 0);
    assert(executions(statements.len()).skip(0) =~= executions(statements.len()));
}

/// The caller receives success exactly when the driver handed out a
/// connection, accepted every statement and confirmed the commit.
pub proof fn success_needs_every_answer(statements: Seq<Seq<char>>, answers: Answers)
    ensures
        batch_exchange(statements, answers).returned is Ok <==> answers(RequestView::Begin)
            && accepts_first(answers, statements.len()) && answers(RequestView::Commit),
        batch_exchange(statements, answers).returned is Ok ==> batch_exchange(
            statements,
            answers,
        ).returned == Ok::<QueryResult, DaoErrorView>(QueryResult::Outcome { success: true }),
{
    if !answers(RequestView::Begin) {
        exchange_without_connection(statements, answers);
    } else if accepts_first(answers, statements.len()) {
        exchange_with_commit(statements, answers);
    } else {
        let rejected = first_rejected(answers, statements.len());
        exchange_with_rejection(statements, answers, rejected);
    }
}

/// No request is made twice: a failure is returned once, and nothing is
/// retried. So the answers to distinct requests describe all that a driver
/// can do during one exchange.
pub proof fn nothing_is_asked_twice(statements: Seq<Seq<char>>, answers: Answers)
    ensures
        batch_exchange(statements, answers).asked.no_duplicates(),
{
    if !answers(RequestView::Begin) {
        exchange_without_connection(statements, answers);
    } else if accepts_first(answers, statements.len()) {
        exchange_with_commit(statements, answers);
    } else {
        let rejected = first_rejected(answers, statements.len());
        exchange_with_rejection(statements, answers, rejected);
    }
}

/// Atomicity: when the driver rejects any statement of the batch, the caller
/// receives an error and the backend keeps the effect of no statement.
pub proof fn any_rejection_keeps_nothing(statements: Seq<Seq<char>>, answers: Answers, rejected: nat)
    requires
        rejected < statements.len(),
        !answers(RequestView::Execute { index: rejected }),
    ensures
        batch_exchange(statements, answers).returned is Err,
        durable(statements, answers) == Seq::<Seq<char>>::empty(),
{
    success_needs_every_answer(statements, answers);
    failure_keeps_nothing(statements, answers);
}

/// When the caller receives an error of any kind, the backend keeps the effect
/// of no statement of the batch.
pub proof fn failure_keeps_nothing(statements: Seq<Seq<char>>, answers: Answers)
    requires
        batch_exchange(statements, answers).returned is Err,
    ensures
        durable(statements, answers) == Seq::<Seq<char>>::empty(),
{
    if !answers(RequestView::Begin) {
        exchange_without_connection(statements, answers);
    } else if accepts_first(answers, statements.len()) {
        exchange_with_commit(statements, answers);
    } else {
        let rejected = first_rejected(answers, statements.len());
        exchange_with_rejection(statements, answers, rejected);
    }
}

/// When the caller receives success, the backend keeps the effects of all
/// statements of the batch, in the order given.
pub proof fn success_keeps_everything(statements: Seq<Seq<char>>, answers: Answers)
    requires
        batch_exchange(statements, answers).returned is Ok,
    ensures
        durable(statements, answers) == statements,
{
    success_needs_every_answer(statements, answers);
    exchange_with_commit(statements, answers);
    let run = seq![RequestView::Begin] + executions(statements.len());
    let asked = run.push(RequestView::Commit);
    assert(asked.last() == RequestView::Commit);
    assert(asked.drop_last() =~= run);
    lemma_executed_run(statements, answers, statements.len());
}

/// An empty batch commits trivially: the driver is asked to begin and to
/// commit, and the caller receives success if both succeed.
pub proof fn empty_batch_commits(statements: Seq<Seq<char>>, answers: Answers)
    requires
        statements.len() == 0,
        answers(RequestView::Begin),
        answers(RequestView::Commit),
    ensures
        batch_exchange(statements, answers) == (Exchange {
            asked: seq![RequestView::Begin, RequestView::Commit],
            returned: Ok(QueryResult::Outcome { success: true }),
        }),
{
    exchange_with_commit(statements, answers);
    assert((seq![RequestView::Begin] + executions(0)).push(RequestView::Commit) =~= seq![
        RequestView::Begin,
        RequestView::Commit,
    ]);
}

} // verus!
