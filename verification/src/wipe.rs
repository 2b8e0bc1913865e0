//! "Clear data & re-login": the webview data directory is removed at the
//! next start, before the webview opens it. A web process of the previous
//! instance may still be flushing, so a failed removal is retried briefly.
use vstd::prelude::*;

verus! {

/// Removal attempts before giving up.
pub const WIPE_ATTEMPTS: u32 = 3;

/// How one removal of the data directory ended.
#[derive(Clone, Copy, Debug, PartialEq, Eq)]
pub enum RemoveOutcome {
    Removed,
    /// The directory does not exist.
    NotFound,
    /// Any other error.
    Failed,
}

/// What to do after an attempt.
#[derive(Clone, Copy, Debug, PartialEq, Eq)]
pub enum WipeStep {
    /// The data is gone; report success.
    Wiped,
    /// There was nothing to remove; stop quietly.
    AlreadyGone,
    /// Wait briefly and try again.
    Retry,
    /// Stop and tell the user that the session may still be present.
    GiveUp,
}

/// The step after attempt number `attempt` (counted from 1).
pub open spec fn wipe_step_spec(attempt: u32, outcome: RemoveOutcome) -> WipeStep {
    match outcome {
        RemoveOutcome::Removed => WipeStep::Wiped,
        RemoveOutcome::NotFound => WipeStep::AlreadyGone,
        RemoveOutcome::Failed => if attempt < WIPE_ATTEMPTS {
            WipeStep::Retry
        } else {
            WipeStep::GiveUp
        },
    }
}

/// Decides what follows removal attempt `attempt` (1-based) that ended with
/// `outcome`.
pub fn wipe_step(attempt: u32, outcome: RemoveOutcome) -> (s: WipeStep)
    ensures
        s == wipe_step_spec(attempt, outcome),
{
    match outcome {
        RemoveOutcome::Removed => WipeStep::Wiped,
        RemoveOutcome::NotFound => WipeStep::AlreadyGone,
        RemoveOutcome::Failed => if attempt < WIPE_ATTEMPTS {
            WipeStep::Retry
        } else {
            WipeStep::GiveUp
        },
    }
}

/// The wipe ends by the last attempt: a retry is only ever asked for before
/// it, and every attempt from it on stops.
pub proof fn lemma_wipe_stops_by_last_attempt(attempt: u32, outcome: RemoveOutcome)
    ensures
        wipe_step_spec(attempt, outcome) == WipeStep::Retry ==> attempt < WIPE_ATTEMPTS,
        attempt >= WIPE_ATTEMPTS ==> wipe_step_spec(attempt, outcome) != WipeStep::Retry,
{
}

/// Only a failure depends on the attempt number: a removal that worked is
/// reported as wiped, and a missing directory as already gone, on every
/// attempt, the last included; a failure is retried before the third
/// attempt and given up from it on.
pub proof fn lemma_outcome_decides_wipe(attempt: u32, other: u32)
    ensures
        wipe_step_spec(attempt, RemoveOutcome::Removed) == WipeStep::Wiped,
        wipe_step_spec(attempt, RemoveOutcome::NotFound) == WipeStep::AlreadyGone,
        wipe_step_spec(attempt, RemoveOutcome::Removed) == wipe_step_spec(other, RemoveOutcome::Removed),
        wipe_step_spec(attempt, RemoveOutcome::NotFound) == wipe_step_spec(
            other,
            RemoveOutcome::NotFound,
        ),
        attempt < 3 ==> wipe_step_spec(attempt, RemoveOutcome::Failed) == WipeStep::Retry,
        attempt >= 3 ==> wipe_step_spec(attempt, RemoveOutcome::Failed) == WipeStep::GiveUp,
{
}

} // verus!
