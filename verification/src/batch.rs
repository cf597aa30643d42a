//! Flows over several files.
//!
//! A [`BatchRun`] goes through a list of paths. For each path the caller
//! makes one attempt (it reads the file and delivers the record) and records
//! what came of it. The run decides whether there is a next attempt:
//!
//! - under [`BatchPolicy::KeepGoing`] every path is tried exactly once, in
//!   the order given; a failed attempt does not end the run;
//! - under [`BatchPolicy::UntilFirstSuccess`] the paths are tried in order
//!   until one attempt ends without an error.
//!
//! Either way the run itself never fails: when it is over, it hands back a
//! report of the attempts that were made.

use crate::delivery::DeliveryOutcome;
use crate::error::{ErrorKind, SenderError};
use vstd::prelude::*;

verus! {

/// When a run goes on to the next path.
#[derive(Clone, Copy, Debug, PartialEq, Eq, Structural)]
pub enum BatchPolicy {
    /// Always, until every path was tried.
    KeepGoing,
    /// Until an attempt ends without an error.
    UntilFirstSuccess,
}

/// What came of one attempt.
#[derive(Clone, Copy, Debug, PartialEq, Eq, Structural)]
pub enum AttemptResult {
    /// The record was read and the server took it.
    Delivered,
    /// The record was read and the server answered with a status outside
    /// 200 to 299. This is no error.
    Rejected,
    /// The attempt ended with an error of this class.
    Failed(ErrorKind),
}

/// What came of the attempts of a run.
#[derive(Clone, Copy, Debug, PartialEq, Eq, Structural)]
pub struct BatchReport {
    /// The attempts that were made.
    pub attempted: usize,
    /// Those in which the server took the record.
    pub delivered: usize,
    /// Those in which the server rejected the record.
    pub rejected: usize,
    /// Those in which the file could not be read.
    pub read_errors: usize,
    /// Those that ended with any other error.
    pub other_errors: usize,
}

/// The result of an attempt, without what it carries.
pub open spec fn classify(outcome: Result<DeliveryOutcome, SenderError>) -> AttemptResult {
    match outcome {
        Ok(DeliveryOutcome::Delivered { .. }) => AttemptResult::Delivered,
        Ok(DeliveryOutcome::Rejected { .. }) => AttemptResult::Rejected,
        Err(error) => AttemptResult::Failed(error.spec_kind()),
    }
}

/// Whether an attempt ended without an error.
pub open spec fn succeeded(result: AttemptResult) -> bool {
    !(result is Failed)
}

/// Whether a run with these results is over.
pub open spec fn is_over(policy: BatchPolicy, paths: nat, results: Seq<AttemptResult>) -> bool {
    ||| results.len() >= paths
    ||| policy == BatchPolicy::UntilFirstSuccess && results.len() > 0 && succeeded(results.last())
}

/// How many of the results `wanted` holds for.
pub open spec fn count(results: Seq<AttemptResult>, wanted: spec_fn(AttemptResult) -> bool) -> nat
    decreases results.len(),
{
    if results.len() == 0 {
        0
    } else if wanted(results.last()) {
        count(results.drop_last(), wanted) + 1
    } else {
        count(results.drop_last(), wanted)
    }
}

/// An attempt in which the server took the record.
pub open spec fn was_delivered(result: AttemptResult) -> bool {
    result == AttemptResult::Delivered
}

/// An attempt in which the server rejected the record.
pub open spec fn was_rejected(result: AttemptResult) -> bool {
    result == AttemptResult::Rejected
}

/// An attempt in which the file could not be read.
pub open spec fn was_read_error(result: AttemptResult) -> bool {
    result == AttemptResult::Failed(ErrorKind::Read)
}

/// An attempt that ended with an error other than a read error.
pub open spec fn was_other_error(result: AttemptResult) -> bool {
    result is Failed && result != AttemptResult::Failed(ErrorKind::Read)
}

/// The report of these results.
pub open spec fn report_of(results: Seq<AttemptResult>) -> BatchReport {
    BatchReport {
        attempted: results.len() as usize,
        delivered: count(results, |r: AttemptResult| was_delivered(r)) as usize,
        rejected: count(results, |r: AttemptResult| was_rejected(r)) as usize,
        read_errors: count(results, |r: AttemptResult| was_read_error(r)) as usize,
        other_errors: count(results, |r: AttemptResult| was_other_error(r)) as usize,
    }
}

/// A count is no more than the number of results.
pub proof fn lemma_count_bound(results: Seq<AttemptResult>, wanted: spec_fn(AttemptResult) -> bool)
    ensures
        count(results, wanted) <= results.len(),
    decreases results.len(),
{
    if results.len() > 0 {
        lemma_count_bound(results.drop_last(), wanted);
    }
}

/// Every attempt is counted once: as delivered, as rejected, as a read
/// error or as another error.
pub proof fn lemma_report_adds_up(results: Seq<AttemptResult>)
    ensures
        count(results, |r: AttemptResult| was_delivered(r)) + count(
            results,
            |r: AttemptResult| was_rejected(r),
        ) + count(results, |r: AttemptResult| was_read_error(r)) + count(
            results,
            |r: AttemptResult| was_other_error(r),
        ) == results.len(),
    decreases results.len(),
{
    if results.len() > 0 {
        lemma_report_adds_up(results.drop_last());
    }
}

/// A run over a list of paths.
pub struct BatchRun {
    paths: Vec<String>,
    policy: BatchPolicy,
    results: Vec<AttemptResult>,
}

/// An attempt that the caller is to make: read the file at the path and
/// deliver its record.
pub struct PendingAttempt {
    run: BatchRun,
}

/// What a run asks for next.
pub enum BatchStep {
    /// One more attempt.
    Attempt(PendingAttempt),
    /// Nothing: the run is over, and this is what came of it.
    Done(BatchReport),
}

impl BatchRun {
    #[verifier::type_invariant]
    spec fn well_formed(self) -> bool {
        self.results@.len() <= self.paths@.len()
    }

    /// The paths of the run, in the order in which they are tried.
    pub closed spec fn paths(&self) -> Seq<String> {
        self.paths@
    }

    /// The policy of the run.
    pub closed spec fn policy(&self) -> BatchPolicy {
        self.policy
    }

    /// What came of the attempts made so far, in order.
    pub closed spec fn results(&self) -> Seq<AttemptResult> {
        self.results@
    }

    /// Whether the run is over.
    pub open spec fn over(&self) -> bool {
        is_over(self.policy(), self.paths().len(), self.results())
    }

    /// A run over `paths` in which no attempt was made yet.
    pub fn new(paths: Vec<String>, policy: BatchPolicy) -> (run: Self)
        ensures
            run.paths() == paths@,
            run.policy() == policy,
            run.results() == Seq::<AttemptResult>::empty(),
    {
        BatchRun { paths, policy, results: Vec::new() }
    }

    /// What the run asks for next: an attempt on the first path that was not
    /// tried yet, or nothing more.
    pub fn next(self) -> (step: BatchStep)
        ensures
            self.results().len() <= self.paths().len(),
            step matches BatchStep::Attempt(attempt) ==> !self.over() && attempt.run() == self,
            step matches BatchStep::Done(report) ==> self.over() && report == report_of(
                self.results(),
            ),
    {
        proof {
            use_type_invariant(&self);
        }
        let made = self.results.len();
        let stop = made >= self.paths.len() || (self.policy == BatchPolicy::UntilFirstSuccess
            && made > 0 && !is_failure(self.results[made - 1]));
        if stop {
            BatchStep::Done(report(&self.results))
        } else {
            BatchStep::Attempt(PendingAttempt { run: self })
        }
    }
}

impl PendingAttempt {
    #[verifier::type_invariant]
    spec fn well_formed(self) -> bool {
        self.run.results@.len() < self.run.paths@.len()
    }

    /// The run that the attempt belongs to, as it was before the attempt.
    pub closed spec fn run(&self) -> BatchRun {
        self.run
    }

    /// The path to try.
    pub open spec fn spec_path(&self) -> String {
        self.run().paths()[self.run().results().len() as int]
    }

    /// The path to try: the first of the run that was not tried yet.
    pub fn path(&self) -> (path: &String)
        ensures
            self.run().results().len() < self.run().paths().len(),
            *path == self.spec_path(),
    {
        proof {
            use_type_invariant(self);
            use_type_invariant(&self.run);
        }
        &self.run.paths[self.run.results.len()]
    }

    /// Records what came of the attempt, and hands back the run.
    pub fn record(self, outcome: &Result<DeliveryOutcome, SenderError>) -> (run: BatchRun)
        ensures
            run.paths() == self.run().paths(),
            run.policy() == self.run().policy(),
            run.results() == self.run().results().push(classify(*outcome)),
    {
        proof {
            use_type_invariant(&self);
        }
        let result = match outcome {
            Ok(DeliveryOutcome::Delivered { .. }) => AttemptResult::Delivered,
            Ok(DeliveryOutcome::Rejected { .. }) => AttemptResult::Rejected,
            Err(error) => AttemptResult::Failed(error.kind()),
        };
        let PendingAttempt { run } = self;
        let BatchRun { paths, policy, results } = run;
        let mut results = results;
        results.push(result);
        BatchRun { paths, policy, results }
    }
}

/// Decides whether an attempt ended with an error.
fn is_failure(result: AttemptResult) -> (b: bool)
    ensures
        b == !succeeded(result),
{
    match result {
        AttemptResult::Failed(_) => true,
        _ => false,
    }
}

/// Counts the results by what came of them.
fn report(results: &Vec<AttemptResult>) -> (made: BatchReport)
    ensures
        made == report_of(results@),
{
    let mut made = BatchReport {
        attempted: 0,
        delivered: 0,
        rejected: 0,
        read_errors: 0,
        other_errors: 0,
    };
    let mut i: usize = 0;
    while i < results.len()
        invariant
            i <= results.len(),
            made == report_of(results@.take(i as int)),
        decreases results.len() - i,
    {
        proof {
            let next = results@.take(i + 1);
            assert(next.drop_last() =~= results@.take(i as int));
            lemma_count_bound(next, |r: AttemptResult| was_delivered(r));
            lemma_count_bound(next, |r: AttemptResult| was_rejected(r));
            lemma_count_bound(next, |r: AttemptResult| was_read_error(r));
            lemma_count_bound(next, |r: AttemptResult| was_other_error(r));
        }
        made.attempted = made.attempted + 1;
        match results[i] {
            AttemptResult::Delivered => {
                made.delivered = made.delivered + 1;
            },
            AttemptResult::Rejected => {
                made.rejected = made.rejected + 1;
            },
            AttemptResult::Failed(ErrorKind::Read) => {
                made.read_errors = made.read_errors + 1;
            },
            AttemptResult::Failed(_) => {
                made.other_errors = made.other_errors + 1;
            },
        }
        i += 1;
    }
    assert(results@.take(i as int) =~= results@);
    made
}

} // verus!
