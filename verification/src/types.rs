//! Core types for sequence construction.
use vstd::prelude::*;

use crate::color::Rgb;
use crate::time::TimeDuration;

verus! {

/// How to transition to a step's target color.
#[derive(Debug, Clone, Copy, PartialEq, Eq, Structural)]
pub enum TransitionStyle {
    /// Instantly jump to target color, hold for duration.
    Step,
    /// Smoothly interpolate over duration.
    Linear,
    /// Quadratic ease-in: starts slow, accelerates.
    EaseIn,
    /// Quadratic ease-out: starts fast, decelerates.
    EaseOut,
    /// Quadratic ease-in-out: slow at both ends, fast in the middle.
    EaseInOut,
    /// Quadratic ease-out-in: fast at both ends, slow in the middle.
    EaseOutIn,
}

impl TransitionStyle {
    /// Whether the style interpolates toward its target (every style but `Step`).
    pub open spec fn interpolates(self) -> bool {
        self != TransitionStyle::Step
    }
}

/// How many times a sequence should repeat.
#[derive(Debug, Clone, Copy, PartialEq, Eq, Structural)]
pub enum LoopCount {
    /// Repeat a specific number of times.
    Finite(u32),
    /// Repeat indefinitely.
    Infinite,
}

impl Default for LoopCount {
    fn default() -> (r: Self)
        ensures
            r == LoopCount::Finite(1),
    {
        LoopCount::Finite(1)
    }
}

/// A single step in an RGB sequence.
#[derive(Debug, Clone, Copy)]
pub struct SequenceStep<D: TimeDuration> {
    /// Target color.
    pub color: Rgb,
    /// Step duration.
    pub duration: D,
    /// Transition style.
    pub transition: TransitionStyle,
}

impl<D: TimeDuration> SequenceStep<D> {
    /// Creates a new sequence step.
    pub fn new(color: Rgb, duration: D, transition: TransitionStyle) -> (r: Self)
        ensures
            r.color == color,
            r.duration == duration,
            r.transition == transition,
    {
        Self { color, duration, transition }
    }
}

/// Sequence validation errors.
#[derive(Debug, Clone, Copy, PartialEq, Eq, Structural)]
pub enum SequenceError {
    /// No steps provided.
    EmptySequence,
    /// Zero duration with an interpolating transition.
    ZeroDurationWithLinear,
    /// A start color was set but the first step does not interpolate.
    StartColorWithStepTransition,
    /// A landing color was set on a sequence that loops forever.
    LandingColorWithInfiniteLoop,
    /// More steps than the sequence's capacity.
    CapacityExceeded,
}

impl SequenceError {
    /// The human-readable description of the error.
    pub open spec fn message_spec(self) -> Seq<char> {
        match self {
            SequenceError::EmptySequence => "sequence must have at least one step"@,
            SequenceError::ZeroDurationWithLinear => "zero-duration steps must use Step transition"@,
            SequenceError::StartColorWithStepTransition => {
                "start color requires an interpolating first step"@
            },
            SequenceError::LandingColorWithInfiniteLoop => {
                "landing color requires a finite loop count"@
            },
            SequenceError::CapacityExceeded => "sequence capacity exceeded"@,
        }
    }

    /// Human-readable description of the error.
    pub fn message(&self) -> (r: &'static str)
        ensures
            r@ == self.message_spec(),
    {
        match self {
            SequenceError::EmptySequence => "sequence must have at least one step",
            SequenceError::ZeroDurationWithLinear => "zero-duration steps must use Step transition",
            SequenceError::StartColorWithStepTransition => {
                "start color requires an interpolating first step"
            },
            SequenceError::LandingColorWithInfiniteLoop => {
                "landing color requires a finite loop count"
            },
            SequenceError::CapacityExceeded => "sequence capacity exceeded",
        }
    }
}

} // verus!
