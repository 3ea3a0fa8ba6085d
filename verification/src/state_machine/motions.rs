//! Motions: repeat and interrupt settings, and running instances.
use vstd::prelude::*;

verus! {

/// How many times a motion plays.
#[derive(Debug, Clone, Copy, PartialEq, Eq, Structural)]
pub enum Repeat {
    Count(u32),
    Infinite,
}

/// Restart semantics when the motion is (re)triggered while already running.
#[derive(Debug, Clone, Copy, PartialEq, Eq, Structural)]
pub enum InterruptPolicy {
    /// Stop the live instance's tracks (overrides freeze) and start over.
    Restart,
    /// Keep the live instance; the trigger is a no-op.
    Ignore,
}

/// A running motion. `live_groups` holds the driver group ids of the current
/// launch batch; the batch is done when every id has completed.
#[derive(Debug)]
pub struct MotionInstance {
    pub motion_idx: usize,
    /// Started from a state's `motions` list — interrupted when that state exits.
    pub state_scoped: bool,
    /// Next step index to launch.
    pub cursor: usize,
    pub live_groups: Vec<u64>,
    /// Iterations left, including the current one.
    pub remaining: Repeat,
}

} // verus!
