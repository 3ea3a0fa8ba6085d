//! Tween progress.
use vstd::prelude::*;

verus! {

/// Whether a tween is still running.
#[derive(Debug, Clone, Copy, PartialEq, Eq, Structural)]
pub enum TweenStatus {
    /// The tween is still in progress.
    Tweening,
    /// The tween has completed.
    Completed,
}

} // verus!
