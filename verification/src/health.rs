//! The health endpoint's fixed payload: the service reports itself healthy
//! and the broker connection as fine; this is a liveness answer, not a deep
//! check.

use vstd::prelude::*;

verus! {

#[derive(Debug, PartialEq, Eq)]
pub struct HealthOutput {
    pub summary: Verdict,
    pub beam: BeamStatus,
}

#[derive(Debug, PartialEq, Eq)]
pub enum Verdict {
    Healthy,
}

#[derive(Debug, PartialEq, Eq)]
pub enum BeamStatus {
    Okay,
}

/// The one answer the health endpoint ever gives.
pub fn health_output() -> (r: HealthOutput)
    ensures
        r.summary is Healthy,
        r.beam is Okay,
{
    HealthOutput { summary: Verdict::Healthy, beam: BeamStatus::Okay }
}

} // verus!
