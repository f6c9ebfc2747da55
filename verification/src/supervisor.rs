//! The detached supervisor's decision: probe the orchestrator process at a
//! fixed interval and, the moment it is gone, kill the whole process group so
//! no node process outlives an ungraceful death of the orchestrator.

use vstd::prelude::*;

verus! {

/// The interval between two liveness probes, in seconds.
pub const PROBE_INTERVAL_SECS: u64 = 3;

/// What one liveness probe reported.
#[derive(Clone, Copy, Debug, PartialEq, Eq, Structural)]
pub enum ProbeResult {
    /// The zero-signal probe reached the process.
    ParentAlive,
    /// The probe failed: the process is gone.
    ParentGone,
}

/// What the supervisor does after one probe.
#[derive(Clone, Copy, Debug, PartialEq, Eq, Structural)]
pub enum SupervisorAction {
    /// Sleep one interval and probe again.
    SleepAndProbe,
    /// Kill the whole process group — not the one pid — and exit.
    KillProcessGroupAndExit,
}

/// Decides one supervisor round: as long as the orchestrator answers the
/// probe, keep watching; the moment it is gone, the whole process group is
/// killed, so every node process of the run dies with it.
pub fn supervisor_action(probe: ProbeResult) -> (r: SupervisorAction)
    ensures
        probe == ProbeResult::ParentAlive <==> r == SupervisorAction::SleepAndProbe,
        probe == ProbeResult::ParentGone <==> r == SupervisorAction::KillProcessGroupAndExit,
{
    match probe {
        ProbeResult::ParentAlive => SupervisorAction::SleepAndProbe,
        ProbeResult::ParentGone => SupervisorAction::KillProcessGroupAndExit,
    }
}

} // verus!
