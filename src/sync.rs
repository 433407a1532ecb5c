//! Decisions of the refresh-mutate-commit-push cycle.
//!
//! The caller runs the cycle against the working tree: it refreshes, reads
//! the record file, changes the list with the functions of `catalogue`,
//! writes it back, commits and pushes; then it hands the outcome of the push
//! to `after_push`, which says whether the cycle is over or runs again from
//! a fresh refresh.

use vstd::prelude::*;
use vstd::string::StringExecFns;
use crate::error::IndexError;

verus! {

/// How many times a cycle runs before a lasting conflict becomes a `SyncError`.
pub const MAX_ATTEMPTS: u32 = 4;

/// What the cycle does next.
#[derive(Debug)]
pub enum Step {
    /// The change landed.
    Done,
    /// The remote moved on: refresh and redo the change from the fresh
    /// state, as attempt number `attempt`.
    Retry { attempt: u32 },
    /// Give up with this error.
    Fail(IndexError),
}

/// The step after a push made in attempt `attempt` (counted from 1).
///
/// A conflict is retried until `MAX_ATTEMPTS` attempts were made, then
/// surfaces as `SyncError`; any other error surfaces as it is.
pub fn after_push(attempt: u32, pushed: Result<(), IndexError>) -> (r: Step)
    requires
        1 <= attempt <= MAX_ATTEMPTS,
    ensures
        pushed is Ok ==> r is Done,
        pushed matches Err(e) ==> (e is ConflictError && attempt < MAX_ATTEMPTS
            ==> r == (Step::Retry { attempt: (attempt + 1) as u32 })),
        pushed matches Err(e) ==> (e is ConflictError && attempt == MAX_ATTEMPTS
            ==> (r matches Step::Fail(f) && f is SyncError)),
        pushed matches Err(e) ==> (!(e is ConflictError) ==> r == Step::Fail(e)),
{
    match pushed {
        Ok(()) => Step::Done,
        Err(e) => {
            if e.is_retriable() {
                if attempt < MAX_ATTEMPTS {
                    Step::Retry { attempt: attempt + 1 }
                } else {
                    Step::Fail(IndexError::SyncError)
                }
            } else {
                Step::Fail(e)
            }
        },
    }
}

/// The commit message of a change to the record of `name` at `version`:
/// ``Updating crate `name#version` ``.
pub fn commit_message(name: &str, version: &str) -> (r: String)
    ensures
        r@ == seq!['U', 'p', 'd', 'a', 't', 'i', 'n', 'g', ' ', 'c', 'r', 'a', 't', 'e', ' ', '`']
            + name@ + seq!['#'] + version@ + seq!['`'],
{
    let mut m = String::from_str("Updating crate `");
    proof { reveal_strlit("Updating crate `"); }
    m.append(name);
    m.append("#");
    proof { reveal_strlit("#"); }
    m.append(version);
    m.append("`");
    proof { reveal_strlit("`"); }
    assert(m@ =~= seq!['U', 'p', 'd', 'a', 't', 'i', 'n', 'g', ' ', 'c', 'r', 'a', 't', 'e', ' ', '`']
        + name@ + seq!['#'] + version@ + seq!['`']);
    m
}

} // verus!
