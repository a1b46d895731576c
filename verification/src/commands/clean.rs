//! Aggregating a bulk clean: applying the exclusion list and folding the
//! per-project outcomes into a single result.

use vstd::prelude::*;

use crate::commands::{
    filter_excluded, lemma_partition_complete, partition_outcomes, spec_excl_of,
    spec_filter_excluded, spec_with_outcome,
};
use crate::data::{Project, WashError};

verus! {

/// Settles a bulk clean over the non-excluded projects, given the outcome
/// (did its clean succeed?) of each one, in order. In a dry run nothing
/// was attempted, so there are no outcomes and the result is zero.
/// Otherwise every project was already attempted; this only reports: zero
/// when every clean succeeded, and an error carrying the exact failure
/// count when any failed.
pub fn run(
    projects: &Vec<Project>,
    dry_run: bool,
    exclude: Option<&String>,
    outcomes: &Vec<bool>,
) -> (r: Result<i32, WashError>)
    requires
        outcomes@.len() == if dry_run {
            0int
        } else {
            spec_filter_excluded(projects@, spec_excl_of(exclude)).len() as int
        },
    ensures
        ({
            let attempted = spec_filter_excluded(projects@, spec_excl_of(exclude));
            let failed = spec_with_outcome(attempted, outcomes@, false);
            if dry_run || failed.len() == 0 {
                r == Ok::<i32, WashError>(0)
            } else {
                r == Err::<i32, WashError>(WashError::SomeFailed { failed: failed.len() as u64 })
            }
        }),
{
    if dry_run {
        return Ok(0);
    }
    let attempted = filter_excluded(projects, exclude);
    let (_cleaned, failed) = partition_outcomes(&attempted, outcomes);
    proof {
        lemma_partition_complete(attempted@, outcomes@);
    }
    if failed.len() == 0 {
        Ok(0)
    } else {
        Err(WashError::SomeFailed { failed: failed.len() as u64 })
    }
}

} // verus!
