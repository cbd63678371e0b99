use vstd::prelude::*;
use crate::error::{DbError, ErrorKind};
use crate::result::QueryResult;
use crate::splitter::{split_spec, split_sql_statements, unclosed_message};
use crate::text::views;

verus! {

/// A script being run statement after statement. The caller runs the
/// statement that `next_statement` gives and reports its outcome to
/// `record`, until `next_statement` gives none; then `finish` hands out the
/// results. A failure ends the run: `record` then returns the error alone and
/// the results gathered so far are dropped.
pub struct BatchRun {
    statements: Vec<String>,
    results: Vec<QueryResult>,
}

/// `r` is `q` numbered as the statement at position `i` of its batch.
pub open spec fn numbered(r: QueryResult, q: QueryResult, i: int) -> bool {
    &&& r.result_index == i
    &&& r.timestamp == q.timestamp
    &&& r.query == q.query
    &&& r.rows_affected == q.rows_affected
    &&& r.execution_time_ms == q.execution_time_ms
    &&& r.columns == q.columns
    &&& r.rows == q.rows
    &&& r.warnings == q.warnings
}

impl BatchRun {
    /// The statements of the script, in order.
    pub closed spec fn statements(&self) -> Seq<Seq<char>> {
        views(self.statements@)
    }

    /// The results gathered so far, one per statement already run.
    pub closed spec fn results(&self) -> Seq<QueryResult> {
        self.results@
    }

    pub closed spec fn wf(&self) -> bool {
        self.results@.len() <= self.statements@.len()
    }

    /// Splits the script into its statements; a splitting failure is returned
    /// as the splitter reports it, and nothing is run.
    pub fn start(script: &str) -> (r: Result<BatchRun, DbError>)
        ensures
            match split_spec(script@) {
                Ok(stmts) => r is Ok && r->Ok_0.wf() && r->Ok_0.statements() == stmts && r->Ok_0.results().len() == 0,
                Err(m) => r is Err && r->Err_0@ == (ErrorKind::Parsing, unclosed_message(m)),
            },
    {
        match split_sql_statements(script) {
            Ok(statements) => Ok(BatchRun { statements, results: Vec::new() }),
            Err(e) => Err(e),
        }
    }

    /// The statement to run next: the first one without a result, if any.
    pub fn next_statement(&self) -> (r: Option<&String>)
        requires
            self.wf(),
        ensures
            (r is Some) == (self.results().len() < self.statements().len()),
            r is Some ==> r->Some_0@ == self.statements()[self.results().len() as int],
    {
        if self.results.len() < self.statements.len() {
            Some(&self.statements[self.results.len()])
        } else {
            None
        }
    }

    /// Records the outcome of the statement that `next_statement` gave. A
    /// result is kept, numbered by the statement's position; an error ends
    /// the run and is returned alone.
    pub fn record(self, outcome: Result<QueryResult, DbError>) -> (r: Result<BatchRun, DbError>)
        requires
            self.wf(),
            self.results().len() < self.statements().len(),
        ensures
            outcome is Err ==> r is Err && r->Err_0 == outcome->Err_0,
            outcome is Ok ==> r is Ok && r->Ok_0.wf() && r->Ok_0.statements() == self.statements()
                && r->Ok_0.results().len() == self.results().len() + 1
                && r->Ok_0.results().drop_last() == self.results()
                && numbered(r->Ok_0.results().last(), outcome->Ok_0, self.results().len() as int),
    {
        match outcome {
            Err(e) => Err(e),
            Ok(q) => {
                let mut q = q;
                let mut run = self;
                q.result_index = run.results.len();
                run.results.push(q);
                assert(run.results@.drop_last() =~= self.results@);
                Ok(run)
            },
        }
    }

    /// The results, one per statement, once every statement has run.
    pub fn finish(self) -> (r: Vec<QueryResult>)
        requires
            self.wf(),
            self.results().len() == self.statements().len(),
        ensures
            r@ == self.results(),
    {
        self.results
    }
}

} // verus!
