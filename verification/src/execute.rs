//! Executor decisions and accounting. The filesystem itself is the
//! caller's: it reports whether a destination exists, carries the rename
//! out, and hands back what happened; the decision for each operation
//! and the final counts are decided here.

use vstd::prelude::*;

use crate::plan::{RenameOperation, RenameView};

verus! {

/// What to do with one planned operation.
#[derive(Clone, Copy, PartialEq, Eq, Structural, Debug)]
pub enum ExecDecision {
    /// The destination already exists and differs from the source: skip
    /// the operation and report the conflict.
    SkipConflict,
    /// Dry-run mode: report the would-be rename without touching the
    /// filesystem.
    Simulate,
    /// Carry the rename out.
    Rename,
}

/// The decision for one operation: a conflict wins over everything, then
/// dry-run, then the real rename.
pub open spec fn spec_decide(op: RenameView, dest_exists: bool, dry_run: bool) -> ExecDecision {
    if dest_exists && op.from != op.to {
        ExecDecision::SkipConflict
    } else if dry_run {
        ExecDecision::Simulate
    } else {
        ExecDecision::Rename
    }
}

/// Decides one operation, per `spec_decide`, given whether its
/// destination already exists on disk.
pub fn decide_operation(op: &RenameOperation, dest_exists: bool, dry_run: bool) -> (d:
    ExecDecision)
    ensures
        d == spec_decide(op@, dest_exists, dry_run),
{
    if dest_exists && !(op.from == op.to) {
        ExecDecision::SkipConflict
    } else if dry_run {
        ExecDecision::Simulate
    } else {
        ExecDecision::Rename
    }
}

/// What became of one operation once the caller acted on its decision.
#[derive(Clone, Copy, PartialEq, Eq, Structural, Debug)]
pub enum OpOutcome {
    /// Skipped because the destination already existed.
    Conflict,
    /// Reported in dry-run mode; counts as a success.
    Simulated,
    /// Renamed on disk; counts as a success.
    Renamed,
    /// The rename failed; counts as an error.
    Failed,
}

/// Whether an outcome counts as a success.
pub open spec fn is_success(o: OpOutcome) -> bool {
    o == OpOutcome::Simulated || o == OpOutcome::Renamed
}

/// Whether an outcome counts as an error.
pub open spec fn is_error(o: OpOutcome) -> bool {
    o == OpOutcome::Failed
}

/// How many outcomes count as successes.
pub open spec fn count_successes(outcomes: Seq<OpOutcome>) -> int
    decreases outcomes.len(),
{
    if outcomes.len() == 0 {
        0
    } else {
        count_successes(outcomes.drop_last()) + if is_success(outcomes.last()) {
            1int
        } else {
            0int
        }
    }
}

/// How many outcomes count as errors.
pub open spec fn count_errors(outcomes: Seq<OpOutcome>) -> int
    decreases outcomes.len(),
{
    if outcomes.len() == 0 {
        0
    } else {
        count_errors(outcomes.drop_last()) + if is_error(outcomes.last()) {
            1int
        } else {
            0int
        }
    }
}

proof fn lemma_counts_bounded(outcomes: Seq<OpOutcome>)
    ensures
        0 <= count_successes(outcomes) <= outcomes.len(),
        0 <= count_errors(outcomes) <= outcomes.len(),
    decreases outcomes.len(),
{
    if outcomes.len() > 0 {
        lemma_counts_bounded(outcomes.drop_last());
    }
}

/// The run's accounting: how many operations succeeded (renamed, or
/// simulated in dry-run mode) and how many failed. Conflicts count
/// toward neither.
pub struct RunSummary {
    pub successes: usize,
    pub errors: usize,
}

/// Tallies the outcomes of a run, per `count_successes` and
/// `count_errors`.
pub fn summarize(outcomes: &Vec<OpOutcome>) -> (s: RunSummary)
    ensures
        s.successes == count_successes(outcomes@),
        s.errors == count_errors(outcomes@),
{
    let mut successes: usize = 0;
    let mut errors: usize = 0;
    let mut i: usize = 0;
    proof {
        assert(outcomes@.take(0) =~= Seq::<OpOutcome>::empty());
    }
    while i < outcomes.len()
        invariant
            i <= outcomes@.len(),
            successes == count_successes(outcomes@.take(i as int)),
            errors == count_errors(outcomes@.take(i as int)),
        decreases outcomes.len() - i,
    {
        proof {
            lemma_counts_bounded(outcomes@.take(i as int));
            assert(outcomes@.take(i as int + 1).drop_last() =~= outcomes@.take(i as int));
            assert(outcomes@.take(i as int + 1).last() == outcomes@[i as int]);
        }
        match outcomes[i] {
            OpOutcome::Simulated => {
                successes = successes + 1;
            },
            OpOutcome::Renamed => {
                successes = successes + 1;
            },
            OpOutcome::Failed => {
                errors = errors + 1;
            },
            OpOutcome::Conflict => {},
        }
        i = i + 1;
    }
    proof {
        assert(outcomes@.take(outcomes@.len() as int) =~= outcomes@);
    }
    RunSummary { successes, errors }
}

} // verus!
