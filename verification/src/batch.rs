//! Bookkeeping for a batch of per-file operations.

use vstd::prelude::*;
use std::path::PathBuf;
use crate::error::ToolError;

verus! {

/// `std::path::PathBuf`, carried through without looking inside.
#[verifier::external_type_specification]
#[verifier::external_body]
pub struct ExPathBuf(std::path::PathBuf);

/// What became of one file: its path with the operation's output, or its
/// path with the error message.
pub type FileOutcome = Result<(PathBuf, String), (PathBuf, String)>;

/// The outcome of a batch: which files went through and which did not.
pub struct BatchSummary {
    pub successful: Vec<(PathBuf, String)>,
    pub failed: Vec<(PathBuf, String)>,
}

/// The successes among some outcomes, in their order.
pub open spec fn successes<S, F>(outcomes: Seq<Result<S, F>>) -> Seq<S>
    decreases outcomes.len(),
{
    if outcomes.len() == 0 {
        Seq::empty()
    } else {
        match outcomes.last() {
            Ok(s) => successes(outcomes.drop_last()).push(s),
            Err(_) => successes(outcomes.drop_last()),
        }
    }
}

/// The failures among some outcomes, in their order.
pub open spec fn failures<S, F>(outcomes: Seq<Result<S, F>>) -> Seq<F>
    decreases outcomes.len(),
{
    if outcomes.len() == 0 {
        Seq::empty()
    } else {
        match outcomes.last() {
            Ok(_) => failures(outcomes.drop_last()),
            Err(f) => failures(outcomes.drop_last()).push(f),
        }
    }
}

/// Every outcome is either a success or a failure.
pub proof fn outcomes_are_partitioned<S, F>(outcomes: Seq<Result<S, F>>)
    ensures
        successes(outcomes).len() + failures(outcomes).len() == outcomes.len(),
    decreases outcomes.len(),
{
    if outcomes.len() > 0 {
        outcomes_are_partitioned(outcomes.drop_last());
    }
}

/// When every outcome is a success, nothing has failed, and the reverse.
pub proof fn no_failure_means_all_succeeded<S, F>(outcomes: Seq<Result<S, F>>)
    ensures
        failures(outcomes).len() == 0 <==> forall|i: int|
            0 <= i < outcomes.len() ==> (#[trigger] outcomes[i]).is_ok(),
    decreases outcomes.len(),
{
    if outcomes.len() > 0 {
        let rest = outcomes.drop_last();
        no_failure_means_all_succeeded(rest);
        if failures(outcomes).len() == 0 {
            assert forall|i: int| 0 <= i < outcomes.len() implies (#[trigger] outcomes[i]).is_ok() by {
                if i < rest.len() {
                    assert(rest[i] == outcomes[i]);
                }
            }
        }
        if forall|i: int| 0 <= i < outcomes.len() ==> (#[trigger] outcomes[i]).is_ok() {
            assert forall|i: int| 0 <= i < rest.len() implies (#[trigger] rest[i]).is_ok() by {
                assert(rest[i] == outcomes[i]);
            }
            assert(outcomes[outcomes.len() - 1].is_ok());
        }
    }
}

/// Splits outcomes into successes and failures, each in its given order.
pub fn partition_outcomes<S, F>(outcomes: Vec<Result<S, F>>) -> (parts: (Vec<S>, Vec<F>))
    ensures
        parts.0@ == successes(outcomes@),
        parts.1@ == failures(outcomes@),
        parts.0@.len() + parts.1@.len() == outcomes@.len(),
{
    let mut outcomes = outcomes;
    let ghost all = outcomes@;
    let mut good_rev: Vec<S> = Vec::new();
    let mut bad_rev: Vec<F> = Vec::new();
    proof {
        outcomes_are_partitioned(all);
    }
    // Outcomes come off the back, so both lists are first built in reverse.
    while outcomes.len() > 0
        invariant
            outcomes@.len() <= all.len(),
            outcomes@ == all.subrange(0, outcomes@.len() as int),
            successes(outcomes@) + good_rev@.reverse() == successes(all),
            failures(outcomes@) + bad_rev@.reverse() == failures(all),
        decreases outcomes@.len(),
    {
        let ghost before = outcomes@;
        let ghost good_before = good_rev@;
        let ghost bad_before = bad_rev@;
        let last = outcomes.pop();
        proof {
            assert(outcomes@ =~= before.drop_last());
            assert(outcomes@ =~= all.subrange(0, outcomes@.len() as int));
        }
        match last {
            Some(Ok(s)) => {
                good_rev.push(s);
                proof {
                    assert(good_rev@.reverse() =~= seq![s] + good_before.reverse());
                    assert(successes(outcomes@) + good_rev@.reverse() =~= successes(before)
                        + good_before.reverse());
                    assert(failures(before) == failures(outcomes@));
                }
            },
            Some(Err(f)) => {
                bad_rev.push(f);
                proof {
                    assert(bad_rev@.reverse() =~= seq![f] + bad_before.reverse());
                    assert(failures(outcomes@) + bad_rev@.reverse() =~= failures(before)
                        + bad_before.reverse());
                    assert(successes(before) == successes(outcomes@));
                }
            },
            None => {},
        }
    }
    let good = reversed(good_rev);
    let bad = reversed(bad_rev);
    proof {
        assert(good@ =~= successes(all));
        assert(bad@ =~= failures(all));
    }
    (good, bad)
}

/// The items of a vector in the opposite order.
pub fn reversed<T>(items: Vec<T>) -> (out: Vec<T>)
    ensures
        out@ == items@.reverse(),
{
    let mut items = items;
    let ghost all = items@;
    let mut out: Vec<T> = Vec::new();
    while items.len() > 0
        invariant
            items@.len() + out@.len() == all.len(),
            items@ == all.subrange(0, items@.len() as int),
            forall|k: int| 0 <= k < out@.len() ==> out@[k] == all[all.len() - 1 - k],
        decreases items@.len(),
    {
        let ghost before = items@;
        let last = items.pop();
        proof {
            assert(items@ =~= all.subrange(0, items@.len() as int));
        }
        match last {
            Some(x) => {
                out.push(x);
            },
            None => {},
        }
    }
    proof {
        assert(out@ =~= all.reverse());
    }
    out
}

/// Gathers the outcomes of a batch into its summary. No outcome is lost and
/// none counts twice, however many files failed.
pub fn summarize(outcomes: Vec<FileOutcome>) -> (summary: BatchSummary)
    ensures
        summary.successful@ == successes(outcomes@),
        summary.failed@ == failures(outcomes@),
        summary.successful@.len() + summary.failed@.len() == outcomes@.len(),
{
    let (successful, failed) = partition_outcomes(outcomes);
    BatchSummary { successful, failed }
}

/// Decides whether a batch may run. The input must be a directory, the
/// output directory, where one is asked for, must exist or have been made,
/// the directory must have been listed, and at least one listed file must
/// match.
pub fn check_batch(
    is_directory: bool,
    output_ready: bool,
    listed: bool,
    n_matching: usize,
) -> (gate: Result<(), ToolError>)
    ensures
        gate == batch_gate(is_directory, output_ready, listed, n_matching),
{
    if !is_directory {
        Err(ToolError::NotADirectory)
    } else if !output_ready || !listed {
        Err(ToolError::IoError)
    } else if n_matching == 0 {
        Err(ToolError::NoMatchingFiles)
    } else {
        Ok(())
    }
}

/// The checks before a batch, in the order in which they fail.
pub open spec fn batch_gate(
    is_directory: bool,
    output_ready: bool,
    listed: bool,
    n_matching: usize,
) -> Result<(), ToolError> {
    if !is_directory {
        Err(ToolError::NotADirectory)
    } else if !output_ready || !listed {
        Err(ToolError::IoError)
    } else if n_matching == 0 {
        Err(ToolError::NoMatchingFiles)
    } else {
        Ok(())
    }
}

} // verus!
