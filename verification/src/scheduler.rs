//! The synchronisation schedule: how long the node waits between two
//! probes of its neighbours, in each of its two phases.

use vstd::prelude::*;

verus! {

/// Seconds between two probes while the node catches up.
pub const INITIAL_INTERVAL: u64 = 1;

/// Seconds between two probes once the node has caught up.
pub const STEADY_INTERVAL: u64 = 10;

/// The phase of synchronisation.
#[derive(Clone, Copy, Debug, PartialEq, Eq, Structural)]
pub enum SyncPhase {
    /// The node has not yet caught up with its neighbours.
    Initial,
    /// The node follows the chain as it grows.
    Steady,
}

/// Seconds between two probes in a phase.
pub open spec fn interval_of(phase: SyncPhase) -> u64 {
    match phase {
        SyncPhase::Initial => INITIAL_INTERVAL,
        SyncPhase::Steady => STEADY_INTERVAL,
    }
}

/// The schedule of a node.
#[derive(Clone, Copy, Debug, PartialEq, Eq, Structural)]
pub struct SyncScheduler {
    /// The phase the node is in.
    pub phase: SyncPhase,
}

impl SyncScheduler {
    /// The schedule of a node that starts: the initial phase.
    pub fn new() -> (scheduler: SyncScheduler)
        ensures
            scheduler.phase == SyncPhase::Initial,
    {
        SyncScheduler { phase: SyncPhase::Initial }
    }

    /// Seconds between two probes in the current phase.
    pub fn interval(&self) -> (seconds: u64)
        ensures
            seconds == interval_of(self.phase),
    {
        match self.phase {
            SyncPhase::Initial => INITIAL_INTERVAL,
            SyncPhase::Steady => STEADY_INTERVAL,
        }
    }

    /// Whether a probe is due when `elapsed` whole seconds have passed since
    /// the last one: as soon as the phase's interval has passed.
    pub fn is_due(&self, elapsed: u64) -> (due: bool)
        ensures
            due == (elapsed >= interval_of(self.phase)),
    {
        elapsed >= self.interval()
    }

    /// Ends the initial phase. In the steady phase nothing changes.
    pub fn complete_initial_sync(&mut self)
        ensures
            final(self).phase == SyncPhase::Steady,
    {
        self.phase = SyncPhase::Steady;
    }
}

} // verus!
