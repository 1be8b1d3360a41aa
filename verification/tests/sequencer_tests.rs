//! Tests for the rgb_sequencer library.

#![allow(dead_code)]

use rgb_sequencer::{Rgb, RgbLed, TimeDuration, TimeInstant, TimeSource};

/// Mock duration type for testing (wraps milliseconds).
#[derive(Debug, Clone, Copy, PartialEq, Eq, PartialOrd, Ord)]
pub struct TestDuration(pub u64);

impl TimeDuration for TestDuration {
    const ZERO: Self = TestDuration(0);

    fn as_millis(&self) -> u64 {
        self.0
    }

    fn from_millis(millis: u64) -> Self {
        TestDuration(millis)
    }

    fn saturating_sub(self, other: Self) -> Self {
        TestDuration(self.0.saturating_sub(other.0))
    }
}

/// Mock instant type for testing.
#[derive(Debug, Clone, Copy, PartialEq, Eq, PartialOrd, Ord)]
pub struct TestInstant(pub u64);

impl TimeInstant for TestInstant {
    type Duration = TestDuration;

    fn duration_since(&self, earlier: Self) -> Self::Duration {
        TestDuration(self.0 - earlier.0)
    }

    fn checked_add(self, duration: Self::Duration) -> Option<Self> {
        Some(TestInstant(self.0 + duration.0))
    }

    fn checked_sub(self, duration: Self::Duration) -> Option<Self> {
        self.0.checked_sub(duration.0).map(TestInstant)
    }
}

/// Mock LED that records all color changes.
pub struct MockLed {
    current_color: Rgb,
    color_history: Vec<Rgb>,
}

impl MockLed {
    pub fn new() -> Self {
        Self {
            current_color: Rgb::new(0, 0, 0),
            color_history: Vec::new(),
        }
    }

    pub fn get_last_color(&self) -> Rgb {
        self.current_color
    }

    pub fn color_history(&self) -> &[Rgb] {
        &self.color_history
    }
}

impl RgbLed for MockLed {
    fn set_color(&mut self, color: Rgb) {
        self.current_color = color;
        self.color_history.push(color);
    }
}

/// Mock time source with controllable time advancement.
pub struct MockTimeSource {
    current_time: core::cell::Cell<TestInstant>,
}

impl MockTimeSource {
    pub fn new() -> Self {
        Self {
            current_time: core::cell::Cell::new(TestInstant(0)),
        }
    }

    pub fn advance(&self, duration: TestDuration) {
        let current = self.current_time.get();
        self.current_time.set(TestInstant(current.0 + duration.0));
    }

    pub fn set_time(&self, time: TestInstant) {
        self.current_time.set(time);
    }
}

impl TimeSource<TestInstant> for MockTimeSource {
    fn now(&self) -> TestInstant {
        self.current_time.get()
    }
}

pub const FULL: u16 = 65535;
pub const BLACK: Rgb = Rgb { r: 0, g: 0, b: 0 };
pub const RED: Rgb = Rgb { r: FULL, g: 0, b: 0 };
pub const GREEN: Rgb = Rgb { r: 0, g: FULL, b: 0 };
pub const BLUE: Rgb = Rgb { r: 0, g: 0, b: FULL };
pub const WHITE: Rgb = Rgb { r: FULL, g: FULL, b: FULL };
pub const YELLOW: Rgb = Rgb { r: FULL, g: FULL, b: 0 };

/// Default per-channel tolerance used by [`colors_equal`], ~0.2% of full scale.
pub const DEFAULT_TEST_EPSILON: u16 = 128;

/// Tolerance for comparisons that pass through brightness scaling.
pub const BRIGHTNESS_EPSILON: u16 = 256;

/// Compare two colors with the default tolerance.
pub fn colors_equal(a: Rgb, b: Rgb) -> bool {
    a.approx_eq(b, DEFAULT_TEST_EPSILON)
}

/// Compare two colors with a custom tolerance.
pub fn colors_equal_epsilon(a: Rgb, b: Rgb, epsilon: u16) -> bool {
    a.approx_eq(b, epsilon)
}

/// Converts a 0.0-1.0 fraction to a channel value.
pub fn channel(fraction: f32) -> u16 {
    (fraction * 65535.0) as u16
}

/// Builds a color from 0.0-1.0 fractions.
pub fn rgb_f(r: f32, g: f32, b: f32) -> Rgb {
    Rgb::new(channel(r), channel(g), channel(b))
}

/// Q0.15 interpolation factor from a 0.0-1.0 fraction.
pub fn factor(fraction: f32) -> u16 {
    (fraction * 32768.0) as u16
}

use rgb_sequencer::sequence::{ColorFn, RgbSequence, TimingFn};
use rgb_sequencer::types::{LoopCount, TransitionStyle};
use rgb_sequencer::{
    DEFAULT_COLOR_EPSILON, RgbSequencer, SequencerAction, SequencerError, SequencerState,
    ServiceTiming,
};

type Sequencer<'t> = RgbSequencer<'t, TestInstant, MockLed, MockTimeSource, 8>;

fn red_for(ms: u64) -> RgbSequence<TestDuration, 8> {
    RgbSequence::<TestDuration, 8>::builder()
        .step(RED, TestDuration(ms), TransitionStyle::Step)
        .unwrap()
        .build()
        .unwrap()
}

fn half_then_full(base: Rgb, elapsed: TestDuration) -> Rgb {
    let brightness = if elapsed.as_millis() < 500 { 0.5 } else { 1.0 };
    Rgb::new(
        (base.r as f32 * brightness) as u16,
        (base.g as f32 * brightness) as u16,
        (base.b as f32 * brightness) as u16,
    )
}

fn unchanged(base: Rgb, _elapsed: TestDuration) -> Rgb {
    base
}

fn continuous(_elapsed: TestDuration) -> Option<TestDuration> {
    Some(TestDuration::ZERO)
}

#[test]
fn start_requires_loaded_state() {
    let timer = MockTimeSource::new();
    let mut sequencer = Sequencer::new(MockLed::new(), &timer);
    let result = sequencer.start();
    assert!(matches!(result, Err(SequencerError::InvalidState { .. })));
}

#[test]
fn pause_requires_running_state() {
    let timer = MockTimeSource::new();
    let mut sequencer = Sequencer::new(MockLed::new(), &timer);
    sequencer.load(red_for(1000));
    let result = sequencer.pause();
    assert!(matches!(result, Err(SequencerError::InvalidState { .. })));
}

#[test]
fn resume_requires_paused_state() {
    let timer = MockTimeSource::new();
    let mut sequencer = Sequencer::new(MockLed::new(), &timer);
    sequencer.load(red_for(1000));

    let result = sequencer.resume();
    assert!(matches!(result, Err(SequencerError::InvalidState { .. })));

    sequencer.start().unwrap();
    let result = sequencer.resume();
    assert!(matches!(result, Err(SequencerError::InvalidState { .. })));
}

#[test]
fn service_requires_running_state() {
    let timer = MockTimeSource::new();
    let mut sequencer = Sequencer::new(MockLed::new(), &timer);
    sequencer.load(red_for(1000));
    let result = sequencer.service();
    assert!(matches!(result, Err(SequencerError::InvalidState { .. })));
}

#[test]
fn loading_and_starting_sequence_updates_led_color() {
    let timer = MockTimeSource::new();
    let mut sequencer = Sequencer::new(MockLed::new(), &timer);

    sequencer.load(red_for(1000));
    assert_eq!(sequencer.state(), SequencerState::Loaded);

    sequencer.start().unwrap();
    assert_eq!(sequencer.state(), SequencerState::Running);

    sequencer.service().unwrap();
    assert!(colors_equal(sequencer.current_color(), RED));
}

#[test]
fn service_correctly_progresses_through_multiple_steps() {
    let timer = MockTimeSource::new();
    let mut sequencer = Sequencer::new(MockLed::new(), &timer);

    let sequence = RgbSequence::<TestDuration, 8>::builder()
        .step(RED, TestDuration(100), TransitionStyle::Step)
        .unwrap()
        .step(GREEN, TestDuration(100), TransitionStyle::Step)
        .unwrap()
        .step(BLUE, TestDuration(100), TransitionStyle::Step)
        .unwrap()
        .loop_count(LoopCount::Finite(1))
        .build()
        .unwrap();

    sequencer.load(sequence);
    sequencer.start().unwrap();
    sequencer.service().unwrap();
    assert!(colors_equal(sequencer.current_color(), RED));

    timer.advance(TestDuration(50));
    sequencer.service().unwrap();
    assert!(colors_equal(sequencer.current_color(), RED));

    timer.advance(TestDuration(60));
    sequencer.service().unwrap();
    assert!(colors_equal(sequencer.current_color(), GREEN));

    timer.advance(TestDuration(100));
    sequencer.service().unwrap();
    assert!(colors_equal(sequencer.current_color(), BLUE));
}

#[test]
fn function_based_sequence_computes_colors_correctly() {
    let timer = MockTimeSource::new();
    let mut sequencer = Sequencer::new(MockLed::new(), &timer);

    let sequence = RgbSequence::<TestDuration, 8>::from_function(
        RED,
        ColorFn(half_then_full),
        TimingFn(continuous),
    );

    sequencer.load(sequence);
    sequencer.start().unwrap();
    sequencer.service().unwrap();
    assert!(colors_equal(sequencer.current_color(), rgb_f(0.5, 0.0, 0.0)));

    timer.advance(TestDuration(500));
    sequencer.service().unwrap();
    assert!(colors_equal(sequencer.current_color(), RED));
}

#[test]
fn pause_resume_maintains_position() {
    let timer = MockTimeSource::new();
    let mut sequencer = Sequencer::new(MockLed::new(), &timer);

    let sequence = RgbSequence::<TestDuration, 8>::builder()
        .step(RED, TestDuration(1000), TransitionStyle::Step)
        .unwrap()
        .step(GREEN, TestDuration(1000), TransitionStyle::Step)
        .unwrap()
        .loop_count(LoopCount::Finite(1))
        .build()
        .unwrap();

    sequencer.load(sequence);
    sequencer.start().unwrap();

    timer.advance(TestDuration(500));
    sequencer.service().unwrap();
    assert!(colors_equal(sequencer.current_color(), RED));

    sequencer.pause().unwrap();
    assert_eq!(sequencer.state(), SequencerState::Paused);

    timer.advance(TestDuration(3000));

    sequencer.resume().unwrap();
    assert_eq!(sequencer.state(), SequencerState::Running);
    assert!(colors_equal(sequencer.current_color(), RED));

    timer.advance(TestDuration(500));
    sequencer.service().unwrap();
    assert!(colors_equal(sequencer.current_color(), GREEN));
}

#[test]
fn stop_turns_off_led_and_returns_to_loaded() {
    let timer = MockTimeSource::new();
    let mut sequencer = Sequencer::new(MockLed::new(), &timer);

    sequencer.load(red_for(1000));
    sequencer.start().unwrap();
    sequencer.service().unwrap();
    assert!(colors_equal(sequencer.current_color(), RED));

    sequencer.stop().unwrap();
    assert_eq!(sequencer.state(), SequencerState::Loaded);
    assert!(colors_equal(sequencer.current_color(), BLACK));
}

#[test]
fn clear_removes_sequence_and_returns_to_idle() {
    let timer = MockTimeSource::new();
    let mut sequencer = Sequencer::new(MockLed::new(), &timer);

    sequencer.load(red_for(1000));
    sequencer.start().unwrap();
    sequencer.service().unwrap();
    assert!(colors_equal(sequencer.current_color(), RED));

    sequencer.clear();
    assert_eq!(sequencer.state(), SequencerState::Idle);
    assert!(colors_equal(sequencer.current_color(), BLACK));
}

#[test]
fn service_returns_continuous_timing_for_linear_transition() {
    let timer = MockTimeSource::new();
    let mut sequencer = Sequencer::new(MockLed::new(), &timer);

    let sequence = RgbSequence::<TestDuration, 8>::builder()
        .step(RED, TestDuration(100), TransitionStyle::Step)
        .unwrap()
        .step(GREEN, TestDuration(1000), TransitionStyle::Linear)
        .unwrap()
        .loop_count(LoopCount::Finite(1))
        .build()
        .unwrap();

    sequencer.load(sequence);
    sequencer.start().unwrap();

    timer.advance(TestDuration(150));
    let timing = sequencer.service().unwrap();
    assert_eq!(timing, ServiceTiming::Continuous);
}

#[test]
fn finite_sequence_completes_and_transitions_to_complete_state() {
    let timer = MockTimeSource::new();
    let mut sequencer = Sequencer::new(MockLed::new(), &timer);

    let sequence = RgbSequence::<TestDuration, 8>::builder()
        .step(RED, TestDuration(100), TransitionStyle::Step)
        .unwrap()
        .loop_count(LoopCount::Finite(1))
        .landing_color(BLUE)
        .build()
        .unwrap();

    sequencer.load(sequence);
    sequencer.start().unwrap();

    timer.advance(TestDuration(200));
    let timing = sequencer.service().unwrap();

    assert_eq!(timing, ServiceTiming::Complete);
    assert_eq!(sequencer.state(), SequencerState::Complete);
    assert!(colors_equal(sequencer.current_color(), BLUE));
}

#[test]
fn peek_next_timing_returns_timing_without_state_changes() {
    let timer = MockTimeSource::new();
    let mut sequencer = Sequencer::new(MockLed::new(), &timer);

    sequencer.load(red_for(1000));
    sequencer.start().unwrap();

    let initial_color = sequencer.current_color();
    let peek_timing = sequencer.peek_next_timing().unwrap();
    assert_eq!(peek_timing, ServiceTiming::Delay(TestDuration(1000)));
    assert!(colors_equal(sequencer.current_color(), initial_color));

    timer.advance(TestDuration(1100));
    assert_eq!(sequencer.peek_next_timing().unwrap(), ServiceTiming::Complete);
    assert_eq!(sequencer.state(), SequencerState::Running);

    sequencer.service().unwrap();
    assert_eq!(sequencer.state(), SequencerState::Complete);
}

#[test]
fn peek_next_timing_requires_running_state() {
    let timer = MockTimeSource::new();
    let sequencer = Sequencer::new(MockLed::new(), &timer);

    let result = sequencer.peek_next_timing();
    assert!(result.is_err());
    assert!(matches!(
        result.unwrap_err(),
        SequencerError::InvalidState { .. }
    ));
}

#[test]
fn restart_from_running_state() {
    let timer = MockTimeSource::new();
    let mut sequencer = Sequencer::new(MockLed::new(), &timer);

    let sequence = RgbSequence::<TestDuration, 8>::builder()
        .step(RED, TestDuration(1000), TransitionStyle::Step)
        .unwrap()
        .step(GREEN, TestDuration(1000), TransitionStyle::Step)
        .unwrap()
        .loop_count(LoopCount::Finite(1))
        .build()
        .unwrap();

    sequencer.load(sequence);
    sequencer.start().unwrap();

    timer.advance(TestDuration(1500));
    sequencer.service().unwrap();
    assert!(colors_equal(sequencer.current_color(), GREEN));

    let restart_result = sequencer.restart();
    assert!(restart_result.is_ok());
    assert_eq!(sequencer.state(), SequencerState::Running);
    sequencer.service().unwrap();
    assert!(colors_equal(sequencer.current_color(), RED));
}

#[test]
fn restart_from_paused_state() {
    let timer = MockTimeSource::new();
    let mut sequencer = Sequencer::new(MockLed::new(), &timer);

    let sequence = RgbSequence::<TestDuration, 8>::builder()
        .step(RED, TestDuration(1000), TransitionStyle::Step)
        .unwrap()
        .step(GREEN, TestDuration(1000), TransitionStyle::Step)
        .unwrap()
        .build()
        .unwrap();

    sequencer.load(sequence);
    sequencer.start().unwrap();
    timer.advance(TestDuration(500));
    sequencer.service().unwrap();
    sequencer.pause().unwrap();

    sequencer.restart().unwrap();
    assert_eq!(sequencer.state(), SequencerState::Running);
    sequencer.service().unwrap();
    assert!(colors_equal(sequencer.current_color(), RED));
}

#[test]
fn restart_from_complete_state() {
    let timer = MockTimeSource::new();
    let mut sequencer = Sequencer::new(MockLed::new(), &timer);

    let sequence = RgbSequence::<TestDuration, 8>::builder()
        .step(RED, TestDuration(100), TransitionStyle::Step)
        .unwrap()
        .loop_count(LoopCount::Finite(1))
        .landing_color(BLUE)
        .build()
        .unwrap();

    sequencer.load(sequence);
    sequencer.start().unwrap();
    timer.advance(TestDuration(200));
    sequencer.service().unwrap();
    assert_eq!(sequencer.state(), SequencerState::Complete);

    sequencer.restart().unwrap();
    assert_eq!(sequencer.state(), SequencerState::Running);
    sequencer.service().unwrap();
    assert!(colors_equal(sequencer.current_color(), RED));
}

#[test]
fn restart_from_invalid_state_fails() {
    let timer = MockTimeSource::new();
    let mut sequencer = Sequencer::new(MockLed::new(), &timer);

    let result = sequencer.restart();
    assert!(matches!(result, Err(SequencerError::InvalidState { .. })));

    sequencer.load(red_for(100));
    let result = sequencer.restart();
    assert!(matches!(result, Err(SequencerError::InvalidState { .. })));
}

#[test]
fn query_methods_return_correct_state_and_timing_info() {
    let timer = MockTimeSource::new();
    let mut sequencer = Sequencer::new(MockLed::new(), &timer);

    assert_eq!(sequencer.state(), SequencerState::Idle);
    assert!(sequencer.elapsed_time().is_none());

    sequencer.load(red_for(100));
    sequencer.start().unwrap();
    assert!(sequencer.is_running());
    assert!(!sequencer.is_paused());

    timer.advance(TestDuration(50));
    sequencer.service().unwrap();
    assert_eq!(sequencer.elapsed_time().unwrap(), TestDuration(50));
}

#[test]
fn stop_from_paused_state() {
    let timer = MockTimeSource::new();
    let mut sequencer = Sequencer::new(MockLed::new(), &timer);

    sequencer.load(red_for(1000));
    sequencer.start().unwrap();
    sequencer.pause().unwrap();

    let result = sequencer.stop();
    assert!(result.is_ok());
    assert_eq!(sequencer.state(), SequencerState::Loaded);
    assert!(colors_equal(sequencer.current_color(), BLACK));
}

#[test]
fn stop_from_complete_state() {
    let timer = MockTimeSource::new();
    let mut sequencer = Sequencer::new(MockLed::new(), &timer);

    let sequence = RgbSequence::<TestDuration, 8>::builder()
        .step(RED, TestDuration(100), TransitionStyle::Step)
        .unwrap()
        .loop_count(LoopCount::Finite(1))
        .build()
        .unwrap();

    sequencer.load(sequence);
    sequencer.start().unwrap();
    timer.advance(TestDuration(200));
    sequencer.service().unwrap();
    assert_eq!(sequencer.state(), SequencerState::Complete);

    let result = sequencer.stop();
    assert!(result.is_ok());
    assert_eq!(sequencer.state(), SequencerState::Loaded);
}

#[test]
fn led_only_updates_when_color_changes() {
    let timer = MockTimeSource::new();
    let mut sequencer = Sequencer::new(MockLed::new(), &timer);

    sequencer.load(red_for(1000));
    sequencer.start().unwrap();

    timer.advance(TestDuration(100));
    sequencer.service().unwrap();
    sequencer.service().unwrap();
    sequencer.service().unwrap();

    assert!(colors_equal(sequencer.current_color(), RED));
    // BLACK from new(), RED from start(); the repeated services wrote nothing.
    let led = sequencer.into_led();
    assert_eq!(led.color_history(), &[BLACK, RED][..]);
}

#[test]
fn loading_new_sequence_replaces_existing_and_resets_state() {
    let timer = MockTimeSource::new();
    let mut sequencer = Sequencer::new(MockLed::new(), &timer);

    let sequence2 = RgbSequence::<TestDuration, 8>::builder()
        .step(GREEN, TestDuration(200), TransitionStyle::Step)
        .unwrap()
        .build()
        .unwrap();

    sequencer.load(red_for(100));
    sequencer.start().unwrap();
    sequencer.service().unwrap();
    assert!(colors_equal(sequencer.current_color(), RED));

    sequencer.load(sequence2);
    assert_eq!(sequencer.state(), SequencerState::Loaded);

    sequencer.start().unwrap();
    sequencer.service().unwrap();
    assert!(colors_equal(sequencer.current_color(), GREEN));
}

#[test]
fn multiple_service_calls_without_time_advancement_are_safe() {
    let timer = MockTimeSource::new();
    let mut sequencer = Sequencer::new(MockLed::new(), &timer);

    sequencer.load(red_for(1000));
    sequencer.start().unwrap();

    for _ in 0..10 {
        let result = sequencer.service();
        assert!(result.is_ok());
        assert!(colors_equal(sequencer.current_color(), RED));
    }
}

#[test]
fn load_and_start_convenience_method_works() {
    let timer = MockTimeSource::new();
    let mut sequencer = Sequencer::new(MockLed::new(), &timer);

    let sequence = RgbSequence::<TestDuration, 8>::builder()
        .step(RED, TestDuration(1000), TransitionStyle::Step)
        .unwrap()
        .step(GREEN, TestDuration(1000), TransitionStyle::Step)
        .unwrap()
        .build()
        .unwrap();

    sequencer.load_and_start(sequence).unwrap();
    assert_eq!(sequencer.state(), SequencerState::Running);
    sequencer.service().unwrap();
    assert!(colors_equal(sequencer.current_color(), RED));

    timer.advance(TestDuration(1100));
    sequencer.service().unwrap();
    assert!(colors_equal(sequencer.current_color(), GREEN));
}

#[test]
fn sequence_with_mixed_zero_and_nonzero_durations_works_correctly() {
    let timer = MockTimeSource::new();
    let mut sequencer = Sequencer::new(MockLed::new(), &timer);

    let sequence = RgbSequence::<TestDuration, 8>::builder()
        .step(RED, TestDuration(0), TransitionStyle::Step)
        .unwrap()
        .step(GREEN, TestDuration(100), TransitionStyle::Step)
        .unwrap()
        .step(BLUE, TestDuration(0), TransitionStyle::Step)
        .unwrap()
        .loop_count(LoopCount::Finite(1))
        .build()
        .unwrap();

    sequencer.load(sequence);
    sequencer.start().unwrap();
    sequencer.service().unwrap();
    assert!(colors_equal(sequencer.current_color(), GREEN));

    timer.advance(TestDuration(50));
    sequencer.service().unwrap();
    assert!(colors_equal(sequencer.current_color(), GREEN));

    timer.advance(TestDuration(50));
    sequencer.service().unwrap();
    assert!(colors_equal(sequencer.current_color(), BLUE));
}

#[test]
fn current_position_returns_none_when_not_running() {
    let timer = MockTimeSource::new();
    let mut sequencer = Sequencer::new(MockLed::new(), &timer);

    assert_eq!(sequencer.current_position(), None);

    sequencer.load(red_for(1000));
    assert_eq!(sequencer.current_position(), None);

    sequencer.start().unwrap();
    assert!(sequencer.current_position().is_some());

    sequencer.pause().unwrap();
    assert_eq!(sequencer.current_position(), None);
}

#[test]
fn current_position_tracks_step_changes() {
    let timer = MockTimeSource::new();
    let mut sequencer = Sequencer::new(MockLed::new(), &timer);

    let sequence = RgbSequence::<TestDuration, 8>::builder()
        .step(RED, TestDuration(100), TransitionStyle::Step)
        .unwrap()
        .step(GREEN, TestDuration(100), TransitionStyle::Step)
        .unwrap()
        .loop_count(LoopCount::Finite(1))
        .build()
        .unwrap();

    sequencer.load(sequence);
    sequencer.start().unwrap();

    assert_eq!(sequencer.current_position().unwrap().step_index, 0);

    timer.advance(TestDuration(100));
    sequencer.service().unwrap();
    assert_eq!(sequencer.current_position().unwrap().step_index, 1);

    timer.advance(TestDuration(100));
    sequencer.service().unwrap();
    assert_eq!(sequencer.current_position(), None);
}

#[test]
fn current_position_tracks_loop_changes() {
    let timer = MockTimeSource::new();
    let mut sequencer = Sequencer::new(MockLed::new(), &timer);

    let sequence = RgbSequence::<TestDuration, 8>::builder()
        .step(RED, TestDuration(100), TransitionStyle::Step)
        .unwrap()
        .loop_count(LoopCount::Finite(3))
        .build()
        .unwrap();

    sequencer.load(sequence);
    sequencer.start().unwrap();

    assert_eq!(sequencer.current_position().unwrap().loop_number, 0);

    timer.advance(TestDuration(100));
    sequencer.service().unwrap();
    assert_eq!(sequencer.current_position().unwrap().loop_number, 1);

    timer.advance(TestDuration(100));
    sequencer.service().unwrap();
    assert_eq!(sequencer.current_position().unwrap().loop_number, 2);
}

#[test]
fn current_position_returns_none_for_function_based_sequences() {
    let timer = MockTimeSource::new();
    let mut sequencer = Sequencer::new(MockLed::new(), &timer);

    let sequence =
        RgbSequence::<TestDuration, 8>::from_function(RED, ColorFn(unchanged), TimingFn(continuous));

    sequencer.load(sequence);
    sequencer.start().unwrap();
    assert_eq!(sequencer.current_position(), None);
}

#[test]
fn into_led_preserves_current_color() {
    let timer = MockTimeSource::new();
    let mut sequencer = Sequencer::new(MockLed::new(), &timer);

    sequencer.load(red_for(1000));
    sequencer.start().unwrap();
    sequencer.service().unwrap();
    assert!(colors_equal(sequencer.current_color(), RED));

    let extracted_led = sequencer.into_led();
    assert!(colors_equal(extracted_led.get_last_color(), RED));
}

#[test]
fn into_parts_extracts_led_and_sequence() {
    let timer = MockTimeSource::new();
    let mut sequencer = Sequencer::new(MockLed::new(), &timer);

    let sequence = RgbSequence::<TestDuration, 8>::builder()
        .step(RED, TestDuration(1000), TransitionStyle::Step)
        .unwrap()
        .step(GREEN, TestDuration(1000), TransitionStyle::Step)
        .unwrap()
        .build()
        .unwrap();

    sequencer.load(sequence);
    let (extracted_led, extracted_sequence) = sequencer.into_parts();
    let _ = extracted_led;
    assert!(extracted_sequence.is_some());
    let seq = extracted_sequence.unwrap();
    assert_eq!(seq.step_count(), 2);
}

#[test]
fn into_parts_returns_none_when_no_sequence_loaded() {
    let timer = MockTimeSource::new();
    let sequencer = Sequencer::new(MockLed::new(), &timer);
    let (_led, sequence) = sequencer.into_parts();
    assert!(sequence.is_none());
}

#[test]
fn color_epsilon_is_configurable() {
    let timer = MockTimeSource::new();

    let sequencer = Sequencer::new(MockLed::new(), &timer);
    assert_eq!(sequencer.color_epsilon(), DEFAULT_COLOR_EPSILON);

    let custom_epsilon = channel(0.0001);
    let sequencer = Sequencer::with_epsilon(MockLed::new(), &timer, custom_epsilon);
    assert_eq!(sequencer.color_epsilon(), custom_epsilon);

    let mut sequencer = Sequencer::new(MockLed::new(), &timer);
    let new_epsilon = channel(0.01);
    sequencer.set_color_epsilon(new_epsilon);
    assert_eq!(sequencer.color_epsilon(), new_epsilon);
}

#[test]
fn brightness_defaults_to_full() {
    let timer = MockTimeSource::new();
    let sequencer = Sequencer::new(MockLed::new(), &timer);
    assert_eq!(sequencer.brightness(), FULL);
}

#[test]
fn set_brightness_applies_to_led_output() {
    let timer = MockTimeSource::new();
    let mut sequencer = Sequencer::new(MockLed::new(), &timer);

    sequencer.set_brightness(channel(0.5));
    assert_eq!(sequencer.brightness(), channel(0.5));

    sequencer.load(red_for(1000));
    sequencer.start().unwrap();
    sequencer.service().unwrap();

    assert!(colors_equal_epsilon(
        sequencer.current_color(),
        rgb_f(0.5, 0.0, 0.0),
        BRIGHTNESS_EPSILON
    ));
}

#[test]
fn brightness_is_clamped_to_valid_range() {
    // Brightness is a 16-bit factor: every value is in range, and the ends of the
    // range are full brightness and off.
    let timer = MockTimeSource::new();
    let mut sequencer = Sequencer::new(MockLed::new(), &timer);

    sequencer.set_brightness(u16::MAX);
    assert_eq!(sequencer.brightness(), FULL);

    sequencer.set_brightness(0);
    assert_eq!(sequencer.brightness(), 0);

    sequencer.set_brightness(channel(0.75));
    assert_eq!(sequencer.brightness(), channel(0.75));
}

#[test]
fn brightness_can_be_changed_during_playback() {
    let timer = MockTimeSource::new();
    let mut sequencer = Sequencer::new(MockLed::new(), &timer);

    sequencer.load(red_for(1000));
    sequencer.start().unwrap();
    sequencer.service().unwrap();
    assert!(colors_equal(sequencer.current_color(), RED));

    sequencer.set_brightness(channel(0.25));
    timer.advance(TestDuration(100));
    sequencer.service().unwrap();

    assert!(colors_equal_epsilon(
        sequencer.current_color(),
        rgb_f(0.25, 0.0, 0.0),
        BRIGHTNESS_EPSILON
    ));
}

#[test]
fn zero_brightness_turns_led_off() {
    let timer = MockTimeSource::new();
    let mut sequencer = Sequencer::new(MockLed::new(), &timer);

    sequencer.set_brightness(0);
    sequencer.load(red_for(1000));
    sequencer.start().unwrap();

    assert!(colors_equal(sequencer.current_color(), BLACK));
}

#[test]
fn brightness_applies_to_all_color_channels() {
    let timer = MockTimeSource::new();
    let mut sequencer = Sequencer::new(MockLed::new(), &timer);

    let sequence = RgbSequence::<TestDuration, 8>::builder()
        .step(WHITE, TestDuration(1000), TransitionStyle::Step)
        .unwrap()
        .build()
        .unwrap();

    sequencer.set_brightness(channel(0.3));
    sequencer.load(sequence);
    sequencer.start().unwrap();
    sequencer.service().unwrap();

    assert!(colors_equal_epsilon(
        sequencer.current_color(),
        rgb_f(0.3, 0.3, 0.3),
        BRIGHTNESS_EPSILON
    ));
}

#[test]
fn brightness_works_with_linear_transitions() {
    let timer = MockTimeSource::new();
    let mut sequencer = Sequencer::new(MockLed::new(), &timer);

    let sequence = RgbSequence::<TestDuration, 8>::builder()
        .step(RED, TestDuration(100), TransitionStyle::Step)
        .unwrap()
        .step(GREEN, TestDuration(1000), TransitionStyle::Linear)
        .unwrap()
        .loop_count(LoopCount::Finite(1))
        .build()
        .unwrap();

    sequencer.set_brightness(channel(0.5));
    sequencer.load(sequence);
    sequencer.start().unwrap();
    sequencer.service().unwrap();

    assert!(colors_equal_epsilon(
        sequencer.current_color(),
        rgb_f(0.5, 0.0, 0.0),
        BRIGHTNESS_EPSILON
    ));

    timer.advance(TestDuration(600));
    sequencer.service().unwrap();

    let current = sequencer.current_color();
    assert!(current.r > 0 && current.r < channel(0.5));
    assert!(current.g > 0 && current.g < channel(0.5));
    assert_eq!(current.b, 0);
}

#[test]
fn brightness_does_not_affect_sequence_timing() {
    let timer = MockTimeSource::new();
    let mut sequencer = Sequencer::new(MockLed::new(), &timer);

    let sequence = RgbSequence::<TestDuration, 8>::builder()
        .step(RED, TestDuration(100), TransitionStyle::Step)
        .unwrap()
        .step(GREEN, TestDuration(100), TransitionStyle::Step)
        .unwrap()
        .loop_count(LoopCount::Finite(1))
        .build()
        .unwrap();

    sequencer.set_brightness(channel(0.1));
    sequencer.load(sequence);
    sequencer.start().unwrap();

    let timing = sequencer.peek_next_timing().unwrap();
    assert_eq!(timing, ServiceTiming::Delay(TestDuration(100)));

    timer.advance(TestDuration(100));
    sequencer.service().unwrap();

    assert!(colors_equal_epsilon(
        sequencer.current_color(),
        rgb_f(0.0, 0.1, 0.0),
        BRIGHTNESS_EPSILON
    ));
}

// Further checks.

#[test]
fn invalid_state_errors_name_the_expected_and_actual_state() {
    let timer = MockTimeSource::new();
    let mut sequencer = Sequencer::new(MockLed::new(), &timer);

    assert_eq!(
        sequencer.start(),
        Err(SequencerError::InvalidState { expected: "Loaded", actual: SequencerState::Idle })
    );
    assert_eq!(
        sequencer.stop(),
        Err(SequencerError::InvalidState {
            expected: "Running, Paused, or Complete",
            actual: SequencerState::Idle,
        })
    );
    sequencer.load(red_for(10));
    assert_eq!(
        sequencer.pause(),
        Err(SequencerError::InvalidState { expected: "Running", actual: SequencerState::Loaded })
    );
    assert_eq!(
        sequencer.resume(),
        Err(SequencerError::InvalidState { expected: "Paused", actual: SequencerState::Loaded })
    );
}

#[test]
fn small_color_changes_below_epsilon_are_not_written() {
    let timer = MockTimeSource::new();
    let mut sequencer = Sequencer::with_epsilon(MockLed::new(), &timer, 1000);

    // A fade from BLACK to a dim red of 900: every step is below the epsilon.
    let sequence = RgbSequence::<TestDuration, 8>::builder()
        .start_color(BLACK)
        .step(Rgb::new(900, 0, 0), TestDuration(100), TransitionStyle::Linear)
        .unwrap()
        .build()
        .unwrap();
    sequencer.load_and_start(sequence).unwrap();
    for _ in 0..10 {
        timer.advance(TestDuration(9));
        sequencer.service().unwrap();
    }
    assert_eq!(sequencer.current_color(), BLACK);
    assert_eq!(sequencer.into_led().color_history(), &[BLACK][..]);
}

#[test]
fn handle_action_dispatches_to_the_methods() {
    let timer = MockTimeSource::new();
    let mut sequencer = Sequencer::new(MockLed::new(), &timer);

    assert_eq!(
        sequencer.handle_action(SequencerAction::Load(red_for(100))),
        Ok(ServiceTiming::Complete)
    );
    assert_eq!(sequencer.state(), SequencerState::Loaded);
    assert_eq!(
        sequencer.handle_action(SequencerAction::Start),
        Ok(ServiceTiming::Delay(TestDuration(100)))
    );
    assert_eq!(sequencer.handle_action(SequencerAction::Pause), Ok(ServiceTiming::Complete));
    assert_eq!(sequencer.state(), SequencerState::Paused);
    assert_eq!(
        sequencer.handle_action(SequencerAction::Resume),
        Ok(ServiceTiming::Delay(TestDuration(100)))
    );
    assert_eq!(
        sequencer.handle_action(SequencerAction::SetBrightness(1234)),
        Ok(ServiceTiming::Complete)
    );
    assert_eq!(sequencer.brightness(), 1234);
    assert_eq!(sequencer.handle_action(SequencerAction::Stop), Ok(ServiceTiming::Complete));
    assert_eq!(sequencer.state(), SequencerState::Loaded);
    assert!(matches!(
        sequencer.handle_action(SequencerAction::Restart),
        Err(SequencerError::InvalidState { .. })
    ));
    assert_eq!(sequencer.handle_action(SequencerAction::Clear), Ok(ServiceTiming::Complete));
    assert_eq!(sequencer.state(), SequencerState::Idle);
}

#[test]
fn resume_shifts_the_start_by_the_pause_length() {
    let timer = MockTimeSource::new();
    let mut sequencer = Sequencer::new(MockLed::new(), &timer);
    sequencer.load(red_for(1000));
    sequencer.start().unwrap();
    timer.advance(TestDuration(300));
    sequencer.pause().unwrap();
    timer.advance(TestDuration(700));
    sequencer.resume().unwrap();
    assert_eq!(sequencer.elapsed_time(), Some(TestDuration(300)));
    assert_eq!(
        Sequencer::compensated_start(TestInstant(10), TestInstant(40), TestInstant(100)),
        TestInstant(70)
    );
}

#[test]
fn service_at_and_peek_at_use_the_given_instant() {
    let timer = MockTimeSource::new();
    let mut sequencer = Sequencer::new(MockLed::new(), &timer);
    let sequence = RgbSequence::<TestDuration, 8>::builder()
        .step(RED, TestDuration(100), TransitionStyle::Step)
        .unwrap()
        .step(GREEN, TestDuration(100), TransitionStyle::Step)
        .unwrap()
        .build()
        .unwrap();
    sequencer.load_and_start(sequence).unwrap();
    assert_eq!(
        sequencer.peek_next_timing_at(TestInstant(30)),
        Ok(ServiceTiming::Delay(TestDuration(70)))
    );
    assert_eq!(
        sequencer.current_position_at(TestInstant(150)).map(|p| p.step_index),
        Some(1)
    );
    assert_eq!(
        sequencer.service_at(TestInstant(150)),
        Ok(ServiceTiming::Delay(TestDuration(50)))
    );
    assert_eq!(sequencer.current_color(), GREEN);
    assert_eq!(sequencer.service_at(TestInstant(250)), Ok(ServiceTiming::Complete));
    assert_eq!(sequencer.state(), SequencerState::Complete);
}

#[test]
fn sequencer_errors_describe_themselves() {
    assert_eq!(SequencerError::NoSequenceLoaded.message(), "no sequence loaded");
    assert_eq!(
        SequencerError::InvalidState { expected: "Running", actual: SequencerState::Paused }
            .message(),
        "invalid state: expected Running, but sequencer is in Paused"
    );
    for state in [
        SequencerState::Idle,
        SequencerState::Loaded,
        SequencerState::Running,
        SequencerState::Paused,
        SequencerState::Complete,
    ] {
        let message = SequencerError::InvalidState { expected: "Loaded", actual: state }.message();
        assert_eq!(message, format!("invalid state: expected Loaded, but sequencer is in {:?}", state));
    }
}

#[test]
fn frequent_servicing_does_not_drift() {
    let timer = MockTimeSource::new();
    let mut busy = Sequencer::new(MockLed::new(), &timer);
    let mut idle = Sequencer::new(MockLed::new(), &timer);
    let make = || {
        RgbSequence::<TestDuration, 8>::builder()
            .step(RED, TestDuration(70), TransitionStyle::Linear)
            .unwrap()
            .step(BLUE, TestDuration(130), TransitionStyle::Step)
            .unwrap()
            .loop_count(LoopCount::Infinite)
            .build()
            .unwrap()
    };
    busy.load_and_start(make()).unwrap();
    idle.load_and_start(make()).unwrap();
    for _ in 0..97 {
        timer.advance(TestDuration(3));
        busy.service().unwrap();
    }
    let busy_timing = busy.service().unwrap();
    let idle_timing = idle.service().unwrap();
    assert_eq!(busy_timing, idle_timing);
    assert_eq!(busy.current_color(), idle.current_color());
    assert_eq!(busy.current_position(), idle.current_position());
}

#[test]
fn dimmed_sequencer_keeps_the_same_schedule() {
    let timer = MockTimeSource::new();
    let mut full = Sequencer::new(MockLed::new(), &timer);
    let mut dim = Sequencer::new(MockLed::new(), &timer);
    dim.set_brightness(1000);
    let make = || {
        RgbSequence::<TestDuration, 8>::builder()
            .step(WHITE, TestDuration(40), TransitionStyle::Step)
            .unwrap()
            .step(RED, TestDuration(60), TransitionStyle::EaseIn)
            .unwrap()
            .loop_count(LoopCount::Finite(2))
            .build()
            .unwrap()
    };
    full.load_and_start(make()).unwrap();
    dim.load_and_start(make()).unwrap();
    for _ in 0..23 {
        timer.advance(TestDuration(9));
        let a = full.service().unwrap();
        let b = dim.service().unwrap();
        assert_eq!(a, b);
        assert_eq!(full.state(), dim.state());
    }
    assert_eq!(full.state(), SequencerState::Complete);
}

#[test]
fn default_epsilon_skips_changes_below_a_thousandth_of_full_scale() {
    let timer = MockTimeSource::new();
    let hold = |c: Rgb| {
        RgbSequence::<TestDuration, 8>::builder()
            .step(c, TestDuration(100), TransitionStyle::Step)
            .unwrap()
            .build()
            .unwrap()
    };
    let mut sequencer = Sequencer::new(MockLed::new(), &timer);
    sequencer.load_and_start(hold(Rgb::new(65, 0, 0))).unwrap();
    assert_eq!(sequencer.current_color(), BLACK);
    sequencer.load_and_start(hold(Rgb::new(66, 0, 0))).unwrap();
    assert_eq!(sequencer.current_color(), Rgb::new(66, 0, 0));
    assert_eq!(sequencer.into_led().color_history(), &[BLACK, Rgb::new(66, 0, 0)][..]);
}

#[test]
fn state_changes_at_given_instants() {
    let timer = MockTimeSource::new();
    let mut sequencer = Sequencer::new(MockLed::new(), &timer);
    let sequence = RgbSequence::<TestDuration, 8>::builder()
        .step(RED, TestDuration(1000), TransitionStyle::Step)
        .unwrap()
        .step(GREEN, TestDuration(1000), TransitionStyle::Step)
        .unwrap()
        .loop_count(LoopCount::Infinite)
        .build()
        .unwrap();
    assert_eq!(
        sequencer.start_at(TestInstant(100), TestInstant(100)),
        Err(SequencerError::InvalidState { expected: "Loaded", actual: SequencerState::Idle })
    );
    sequencer.load(sequence);

    // Started at 100 and serviced at 600: 500 ms into the red step.
    assert_eq!(
        sequencer.start_at(TestInstant(100), TestInstant(600)),
        Ok(ServiceTiming::Delay(TestDuration(500)))
    );
    assert_eq!(sequencer.current_color(), RED);

    // Paused at 600 (500 ms in), resumed 3000 ms later: still 500 ms into red.
    assert_eq!(sequencer.pause_at(TestInstant(600)), Ok(()));
    assert_eq!(sequencer.state(), SequencerState::Paused);
    assert_eq!(
        sequencer.resume_at(TestInstant(3600), TestInstant(3600)),
        Ok(ServiceTiming::Delay(TestDuration(500)))
    );
    assert_eq!(sequencer.current_color(), RED);
    assert_eq!(
        sequencer.service_at(TestInstant(4100)),
        Ok(ServiceTiming::Delay(TestDuration(1000)))
    );
    assert_eq!(sequencer.current_color(), GREEN);

    // Restarting plays from the beginning again.
    assert_eq!(
        sequencer.restart_at(TestInstant(5000), TestInstant(5000)),
        Ok(ServiceTiming::Delay(TestDuration(1000)))
    );
    assert_eq!(sequencer.current_color(), RED);
    assert_eq!(sequencer.pause_at(TestInstant(5000)), Ok(()));
    assert_eq!(
        sequencer.pause_at(TestInstant(5001)),
        Err(SequencerError::InvalidState { expected: "Running", actual: SequencerState::Paused })
    );
    assert_eq!(
        sequencer.resume_at(TestInstant(9000), TestInstant(9000)),
        Ok(ServiceTiming::Delay(TestDuration(1000)))
    );
}
