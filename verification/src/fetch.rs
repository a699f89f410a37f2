//! How far the history of a channel is fetched.

use vstd::prelude::*;

verus! {

/// The number of batches that one run takes in at most.
pub const FETCH_COUNT: usize = 100;

/// What to do with a batch that the message source delivered.
#[derive(Clone, Copy, Debug, PartialEq, Eq, Structural)]
pub enum FetchStep {
    /// Take the batch in and ask for the next one.
    Take,
    /// The delivery failed: report the failure and fetch no more.
    ReportAndStop,
    /// Enough was taken in: leave the batch and fetch no more.
    Stop,
}

/// The step that is due when `seen` batches were taken in and one more was
/// delivered, with or without a failure. The limit comes first: a delivery
/// beyond it is not looked at.
pub open spec fn next_step(seen: usize, failed: bool) -> FetchStep {
    if seen >= FETCH_COUNT {
        FetchStep::Stop
    } else if failed {
        FetchStep::ReportAndStop
    } else {
        FetchStep::Take
    }
}

/// Decides what to do with a delivery, `seen` batches having been taken in
/// before it.
pub fn fetch_step(seen: usize, failed: bool) -> (r: FetchStep)
    ensures
        r == next_step(seen, failed),
{
    if seen >= FETCH_COUNT {
        FetchStep::Stop
    } else if failed {
        FetchStep::ReportAndStop
    } else {
        FetchStep::Take
    }
}

} // verus!
