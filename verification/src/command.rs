//! Command-based control for sequencers.
use vstd::prelude::*;

use crate::sequence::RgbSequence;
use crate::time::TimeDuration;

verus! {

/// Actions for controlling sequencers.
///
/// Each variant corresponds to a method on `RgbSequencer`. Use with `SequencerCommand`
/// for routing in multi-LED systems.
#[derive(Debug, Clone)]
#[verifier::reject_recursive_types(D)]
pub enum SequencerAction<D: TimeDuration, const N: usize> {
    /// Load sequence (transitions to `Loaded` state).
    Load(RgbSequence<D, N>),
    /// Start loaded sequence (requires `Loaded` state).
    Start,
    /// Stop and turn off LED (keeps sequence loaded).
    Stop,
    /// Pause at current color (requires `Running` state).
    Pause,
    /// Resume from pause with timing compensation.
    Resume,
    /// Restart from beginning (from `Running`, `Paused`, or `Complete`).
    Restart,
    /// Clear sequence and turn off LED.
    Clear,
    /// Set brightness factor (65535 is full brightness).
    SetBrightness(u16),
}

/// Command targeting a specific LED.
#[derive(Debug, Clone)]
#[verifier::reject_recursive_types(D)]
pub struct SequencerCommand<Id, D: TimeDuration, const N: usize> {
    /// LED identifier.
    pub led_id: Id,
    /// Action to execute.
    pub action: SequencerAction<D, N>,
}

impl<Id, D: TimeDuration, const N: usize> SequencerCommand<Id, D, N> {
    /// Creates command.
    pub fn new(led_id: Id, action: SequencerAction<D, N>) -> (c: Self)
        ensures
            c.led_id == led_id,
            c.action == action,
    {
        Self { led_id, action }
    }
}

} // verus!
