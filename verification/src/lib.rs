//! RGB LED animation library for embedded systems.
//!
//! Provides step-based and function-based color sequences with trait abstractions for
//! LED hardware and timing. All color math is fixed-point integer arithmetic. Steps and
//! sequencer slots are held in `Vec`s whose length never exceeds the capacity given as
//! a const parameter, and error messages are built as `String`s, so the crate needs an
//! allocator.
use vstd::prelude::*;

pub mod collection;
pub mod color;
pub mod colors;
pub mod command;
pub mod fixed;
pub mod sequence;
pub mod sequencer;
pub mod text;
pub mod time;
pub mod types;

pub use color::Rgb;
pub use command::{SequencerAction, SequencerCommand};
pub use sequence::{RgbSequence, SequenceBuilder, StepPosition};
pub use sequencer::{
    DEFAULT_COLOR_EPSILON, Position, RgbLed, RgbSequencer, SequencerError, SequencerState,
    ServiceTiming,
};
pub use time::{TimeDuration, TimeInstant, TimeSource};
pub use types::{LoopCount, SequenceError, SequenceStep, TransitionStyle};

verus! {

/// Full-scale channel value.
pub const FULL: u16 = 65535;

/// Black color (all channels off).
pub fn black() -> (c: Rgb)
    ensures
        c == (Rgb { r: 0, g: 0, b: 0 }),
{
    Rgb { r: 0, g: 0, b: 0 }
}

/// Red color (full red channel).
pub fn red() -> (c: Rgb)
    ensures
        c == (Rgb { r: FULL, g: 0, b: 0 }),
{
    Rgb { r: FULL, g: 0, b: 0 }
}

/// Green color (full green channel).
pub fn green() -> (c: Rgb)
    ensures
        c == (Rgb { r: 0, g: FULL, b: 0 }),
{
    Rgb { r: 0, g: FULL, b: 0 }
}

/// Blue color (full blue channel).
pub fn blue() -> (c: Rgb)
    ensures
        c == (Rgb { r: 0, g: 0, b: FULL }),
{
    Rgb { r: 0, g: 0, b: FULL }
}

/// White color (all channels full).
pub fn white() -> (c: Rgb)
    ensures
        c == (Rgb { r: FULL, g: FULL, b: FULL }),
{
    Rgb { r: FULL, g: FULL, b: FULL }
}

/// Yellow color (red + green).
pub fn yellow() -> (c: Rgb)
    ensures
        c == (Rgb { r: FULL, g: FULL, b: 0 }),
{
    Rgb { r: FULL, g: FULL, b: 0 }
}

/// Cyan color (green + blue).
pub fn cyan() -> (c: Rgb)
    ensures
        c == (Rgb { r: 0, g: FULL, b: FULL }),
{
    Rgb { r: 0, g: FULL, b: FULL }
}

/// Magenta color (red + blue).
pub fn magenta() -> (c: Rgb)
    ensures
        c == (Rgb { r: FULL, g: 0, b: FULL }),
{
    Rgb { r: FULL, g: 0, b: FULL }
}

/// RGB sequencer with capacity for 4 steps.
pub type RgbSequencer4<'t, I, L, T> = RgbSequencer<'t, I, L, T, 4>;

/// RGB sequencer with capacity for 8 steps.
pub type RgbSequencer8<'t, I, L, T> = RgbSequencer<'t, I, L, T, 8>;

/// RGB sequencer with capacity for 16 steps.
pub type RgbSequencer16<'t, I, L, T> = RgbSequencer<'t, I, L, T, 16>;

/// RGB sequence with capacity for 4 steps.
pub type RgbSequence4<D> = RgbSequence<D, 4>;

/// RGB sequence with capacity for 8 steps.
pub type RgbSequence8<D> = RgbSequence<D, 8>;

/// RGB sequence with capacity for 16 steps.
pub type RgbSequence16<D> = RgbSequence<D, 16>;

/// Sequencer action with capacity for 4 steps.
pub type SequencerAction4<D> = SequencerAction<D, 4>;

/// Sequencer action with capacity for 8 steps.
pub type SequencerAction8<D> = SequencerAction<D, 8>;

/// Sequencer action with capacity for 16 steps.
pub type SequencerAction16<D> = SequencerAction<D, 16>;

/// Sequencer command with capacity for 4 steps.
pub type SequencerCommand4<Id, D> = SequencerCommand<Id, D, 4>;

/// Sequencer command with capacity for 8 steps.
pub type SequencerCommand8<Id, D> = SequencerCommand<Id, D, 8>;

/// Sequencer command with capacity for 16 steps.
pub type SequencerCommand16<Id, D> = SequencerCommand<Id, D, 16>;

} // verus!
