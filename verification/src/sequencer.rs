//! RGB LED sequencer with state management.
use vstd::prelude::*;

use crate::color::{Rgb, approx_eq_spec, black_spec, scale_spec};
use crate::command::SequencerAction;
use crate::sequence::RgbSequence;
use crate::time::{TimeDuration, TimeInstant, TimeSource};
use crate::text::join3;
use vstd::string::StringExecFns;

verus! {

/// Trait for abstracting RGB LED hardware.
pub trait RgbLed {
    /// Sets LED to specified color.
    ///
    /// Channels are `0..=65535`. Convert to your hardware's native format (PWM duty
    /// cycles, 8-bit values, etc.) in your implementation.
    fn set_color(&mut self, color: Rgb);
}

/// The current state of an RGB sequencer.
#[derive(Debug, Clone, Copy, PartialEq, Eq, Structural)]
pub enum SequencerState {
    /// No sequence loaded.
    Idle,
    /// Sequence loaded.
    Loaded,
    /// Sequence running.
    Running,
    /// Sequence paused.
    Paused,
    /// Sequence complete.
    Complete,
}

/// Timing information returned by service operations.
#[derive(Debug, Clone, Copy, PartialEq, Eq)]
pub enum ServiceTiming<D> {
    /// Continuous animation - service again at your target frame rate.
    Continuous,
    /// Static hold - can delay this duration before next service call.
    Delay(D),
    /// Sequence complete - no further servicing needed.
    Complete,
}

/// Current playback position within a sequence.
#[derive(Debug, Clone, Copy, PartialEq, Eq, Structural)]
pub struct Position {
    /// Current step index (0-based).
    pub step_index: usize,
    /// Current loop number (0-based).
    pub loop_number: u32,
}

/// Errors that can occur during sequencer operations.
#[derive(Debug, Clone, Copy, PartialEq, Eq)]
pub enum SequencerError {
    /// Invalid state.
    InvalidState {
        /// Expected state description.
        expected: &'static str,
        /// Actual current state.
        actual: SequencerState,
    },
    /// No sequence loaded.
    NoSequenceLoaded,
}

/// The name of a state, as its `Debug` form writes it.
pub open spec fn state_name(state: SequencerState) -> Seq<char> {
    match state {
        SequencerState::Idle => "Idle"@,
        SequencerState::Loaded => "Loaded"@,
        SequencerState::Running => "Running"@,
        SequencerState::Paused => "Paused"@,
        SequencerState::Complete => "Complete"@,
    }
}

fn state_name_str(state: SequencerState) -> (r: &'static str)
    ensures
        r@ == state_name(state),
{
    match state {
        SequencerState::Idle => "Idle",
        SequencerState::Loaded => "Loaded",
        SequencerState::Running => "Running",
        SequencerState::Paused => "Paused",
        SequencerState::Complete => "Complete",
    }
}

impl SequencerError {
    /// The human-readable description of the error.
    pub open spec fn message_spec(self) -> Seq<char> {
        match self {
            SequencerError::InvalidState { expected, actual } => "invalid state: expected "@
                + expected@ + ", but sequencer is in "@ + state_name(actual),
            SequencerError::NoSequenceLoaded => "no sequence loaded"@,
        }
    }

    /// Human-readable description of the error.
    pub fn message(&self) -> (r: String)
        ensures
            r@ == self.message_spec(),
    {
        match self {
            SequencerError::InvalidState { expected, actual } => {
                let mut s = join3("invalid state: expected ", expected, ", but sequencer is in ");
                s.append(state_name_str(*actual));
                s
            },
            SequencerError::NoSequenceLoaded => "no sequence loaded".to_owned(),
        }
    }
}

/// Default per-channel threshold below which a color change is not written to the LED.
///
/// A thousandth of full scale is 65.535 counts; with the strict comparison of
/// [`Rgb::approx_eq`], 66 skips exactly the changes of at most 65 counts.
pub const DEFAULT_COLOR_EPSILON: u16 = 66;

/// Full brightness: colors pass through unscaled.
pub const FULL_BRIGHTNESS: u16 = 65535;

/// The color written to the LED for a sequence color at a brightness.
pub open spec fn dimmed(color: Rgb, brightness: u16) -> Rgb {
    if brightness == FULL_BRIGHTNESS {
        color
    } else {
        scale_spec(color, brightness)
    }
}

/// The timing a service result contributes: zero for continuous animation, the delay for
/// a static hold, nothing once complete.
pub open spec fn timing_hint<D: TimeDuration>(t: ServiceTiming<D>) -> Option<int> {
    match t {
        ServiceTiming::Continuous => Some(0),
        ServiceTiming::Delay(d) => Some(d.millis() as int),
        ServiceTiming::Complete => None,
    }
}

/// The service result for a timing hint: `None` completes the sequence, a zero delay asks
/// for continuous updates, any other delay is passed on.
pub open spec fn service_result<D: TimeDuration>(t: Option<D>) -> Result<ServiceTiming<D>, SequencerError> {
    match t {
        None => Ok(ServiceTiming::Complete),
        Some(d) => if d.millis() == 0 {
            Ok(ServiceTiming::Continuous)
        } else {
            Ok(ServiceTiming::Delay(d))
        },
    }
}

/// Whether some channel of `a` - red, green or blue - differs from the same channel of
/// `b` by at least `epsilon`.
pub open spec fn moved_by(a: Rgb, b: Rgb, epsilon: u16) -> bool {
    ||| a.r - b.r >= epsilon || b.r - a.r >= epsilon
    ||| a.g - b.g >= epsilon || b.g - a.g >= epsilon
    ||| a.b - b.b >= epsilon || b.b - a.b >= epsilon
}

/// The error for an operation attempted in the wrong state.
pub open spec fn invalid_state(expected: &'static str, actual: SequencerState) -> SequencerError {
    SequencerError::InvalidState { expected, actual }
}

/// Whether a state has a running clock (a start instant).
pub open spec fn is_started(state: SequencerState) -> bool {
    state == SequencerState::Running || state == SequencerState::Paused || state
        == SequencerState::Complete
}

/// Controls a single RGB LED through sequences.
#[verifier::reject_recursive_types(I)]
pub struct RgbSequencer<'t, I: TimeInstant, L: RgbLed, T: TimeSource<I>, const N: usize> {
    led: L,
    time_source: &'t T,
    state: SequencerState,
    sequence: Option<RgbSequence<I::Duration, N>>,
    start_time: Option<I>,
    pause_start_time: Option<I>,
    current_color: Rgb,
    color_epsilon: u16,
    brightness: u16,
    written: Ghost<Seq<Rgb>>,
}

impl<'t, I: TimeInstant, L: RgbLed, T: TimeSource<I>, const N: usize> RgbSequencer<'t, I, L, T, N> {
    /// Current state.
    pub closed spec fn state_spec(&self) -> SequencerState {
        self.state
    }

    /// Loaded sequence, if any.
    pub closed spec fn sequence_spec(&self) -> Option<RgbSequence<I::Duration, N>> {
        self.sequence
    }

    /// Instant the current run started from (shifted forward by pauses).
    pub closed spec fn start_time_spec(&self) -> Option<I> {
        self.start_time
    }

    /// Instant the current pause began.
    pub closed spec fn pause_start_spec(&self) -> Option<I> {
        self.pause_start_time
    }

    /// Color last written to the LED.
    pub closed spec fn current_color_spec(&self) -> Rgb {
        self.current_color
    }

    /// Threshold below which color changes are not written.
    pub closed spec fn color_epsilon_spec(&self) -> u16 {
        self.color_epsilon
    }

    /// Brightness factor, where 65535 is full brightness.
    pub closed spec fn brightness_spec(&self) -> u16 {
        self.brightness
    }

    /// Every color written to the LED, oldest first.
    pub closed spec fn led_writes(&self) -> Seq<Rgb> {
        self.written@
    }

    /// The state machine's invariant.
    pub closed spec fn valid(&self) -> bool {
        &&& (self.sequence matches Some(s) ==> s.valid())
        &&& (self.state == SequencerState::Idle <==> self.sequence is None)
        &&& (is_started(self.state) ==> self.start_time is Some)
        &&& (self.state == SequencerState::Paused ==> self.pause_start_time is Some)
        &&& self.written@.len() > 0
        &&& self.written@.last() == self.current_color
    }

    /// Everything but the LED writes and the current color is unchanged.
    pub open spec fn same_settings(&self, other: &Self) -> bool {
        &&& self.sequence_spec() == other.sequence_spec()
        &&& self.color_epsilon_spec() == other.color_epsilon_spec()
        &&& self.brightness_spec() == other.brightness_spec()
    }

    /// Nothing observable changed.
    pub open spec fn unchanged(&self, other: &Self) -> bool {
        &&& self.same_settings(other)
        &&& self.state_spec() == other.state_spec()
        &&& self.start_time_spec() == other.start_time_spec()
        &&& self.pause_start_spec() == other.pause_start_spec()
        &&& self.current_color_spec() == other.current_color_spec()
        &&& self.led_writes() == other.led_writes()
    }

    /// The LED update rule: a dimmed color is written only when some channel moved by at
    /// least the epsilon.
    pub open spec fn shows(&self, pre: &Self, color: Rgb) -> bool {
        if approx_eq_spec(color, pre.current_color_spec(), pre.color_epsilon_spec()) {
            &&& self.current_color_spec() == pre.current_color_spec()
            &&& self.led_writes() == pre.led_writes()
        } else {
            &&& self.current_color_spec() == color
            &&& self.led_writes() == pre.led_writes().push(color)
        }
    }

    /// Milliseconds since the run started, as read at `now`.
    pub open spec fn elapsed_at(&self, now: I) -> int {
        now.since(self.start_time_spec().unwrap()).millis() as int
    }

    /// What one service at `now` does: from any state but `Running` it fails and changes
    /// nothing; while running it evaluates the sequence at the elapsed time, writes the
    /// dimmed color under the epsilon rule, and turns `None` timing into `Complete`.
    pub open spec fn services_to(
        pre: &Self,
        now: I,
        post: &Self,
        r: Result<ServiceTiming<I::Duration>, SequencerError>,
    ) -> bool {
        if pre.state_spec() != SequencerState::Running {
            &&& r == Err::<ServiceTiming<I::Duration>, SequencerError>(
                invalid_state("Running", pre.state_spec()),
            )
            &&& post.unchanged(pre)
        } else {
            let seq = pre.sequence_spec().unwrap();
            let e = pre.elapsed_at(now);
            &&& post.same_settings(pre)
            &&& post.start_time_spec() == pre.start_time_spec()
            &&& post.pause_start_spec() == pre.pause_start_spec()
            &&& r is Ok
            &&& (post.state_spec() == SequencerState::Complete <==> r == Ok::<
                ServiceTiming<I::Duration>,
                SequencerError,
            >(ServiceTiming::Complete))
            &&& (post.state_spec() == SequencerState::Running || post.state_spec()
                == SequencerState::Complete)
            &&& if seq.is_function_based_spec() {
                exists|c: Rgb, t: Option<I::Duration>|
                    #![trigger post.shows(pre, dimmed(c, pre.brightness_spec())), service_result(t)]
                    post.shows(pre, dimmed(c, pre.brightness_spec())) && r == service_result(t)
            } else {
                &&& post.shows(pre, dimmed(seq.color_at_time(e), pre.brightness_spec()))
                &&& match seq.timing_at_time(e) {
                    None => r == Ok::<ServiceTiming<I::Duration>, SequencerError>(
                        ServiceTiming::Complete,
                    ),
                    Some(d) => if d == 0 {
                        r == Ok::<ServiceTiming<I::Duration>, SequencerError>(
                            ServiceTiming::Continuous,
                        )
                    } else {
                        r matches Ok(ServiceTiming::Delay(x)) && x.millis() == d
                    },
                }
            }
        }
    }

    /// The current color and the LED writes are unchanged.
    pub open spec fn unchanged_color(&self, pre: &Self) -> bool {
        &&& self.current_color_spec() == pre.current_color_spec()
        &&& self.led_writes() == pre.led_writes()
    }

    /// The timing hint that `peek_next_timing` reports when read at `now`.
    pub open spec fn peeks(&self, now: I, r: Result<ServiceTiming<I::Duration>, SequencerError>) -> bool {
        if self.state_spec() != SequencerState::Running {
            r == Err::<ServiceTiming<I::Duration>, SequencerError>(
                invalid_state("Running", self.state_spec()),
            )
        } else {
            let seq = self.sequence_spec().unwrap();
            let e = self.elapsed_at(now);
            &&& seq.is_function_based_spec() ==> exists|t: Option<I::Duration>|
                r == #[trigger] service_result(t)
            &&& !seq.is_function_based_spec() ==> match seq.timing_at_time(e) {
                None => r == Ok::<ServiceTiming<I::Duration>, SequencerError>(
                    ServiceTiming::Complete,
                ),
                Some(d) => if d == 0 {
                    r == Ok::<ServiceTiming<I::Duration>, SequencerError>(
                        ServiceTiming::Continuous,
                    )
                } else {
                    r matches Ok(ServiceTiming::Delay(x)) && x.millis() == d
                },
            }
        }
    }

    /// The position that `current_position` reports when read at `now`.
    pub open spec fn position_report(&self, now: I) -> Option<Position> {
        if self.state_spec() != SequencerState::Running {
            None
        } else {
            match self.sequence_spec().unwrap().position_at(self.elapsed_at(now)) {
                None => None,
                Some(p) => Some(Position { step_index: p.0 as usize, loop_number: p.4 as u32 }),
            }
        }
    }

    /// The start instant after resuming at `now`: pushed forward by the length of the
    /// pause, or kept where the addition overflows.
    pub open spec fn resumed_start(&self, now: I) -> I {
        let start = self.start_time_spec().unwrap();
        let paused = now.since(self.pause_start_spec().unwrap());
        match start.plus(paused) {
            Some(s) => s,
            None => start,
        }
    }
}

impl<'t, I: TimeInstant, L: RgbLed, T: TimeSource<I>, const N: usize> RgbSequencer<'t, I, L, T, N> {
    /// The LED the sequencer drives.
    pub closed spec fn led_spec(&self) -> L {
        self.led
    }

    /// The sequencer with a sequence loaded and its clock cleared.
    pub closed spec fn loaded(self, sequence: RgbSequence<I::Duration, N>) -> Self {
        RgbSequencer {
            sequence: Some(sequence),
            start_time: None,
            pause_start_time: None,
            state: SequencerState::Loaded,
            ..self
        }
    }

    /// The sequencer with another color epsilon and nothing else changed.
    pub closed spec fn epsilon_set(self, epsilon: u16) -> Self {
        RgbSequencer { color_epsilon: epsilon, ..self }
    }

    /// The sequencer with another brightness and nothing else changed.
    pub closed spec fn brightness_set(self, brightness: u16) -> Self {
        RgbSequencer { brightness, ..self }
    }

    /// The sequencer set running from `now`, as `start` and `restart` do.
    pub closed spec fn started_at(self, now: I) -> Self {
        RgbSequencer {
            start_time: Some(now),
            pause_start_time: None,
            state: SequencerState::Running,
            ..self
        }
    }

    /// The sequencer resumed at `now`, its start pushed forward by the pause.
    pub closed spec fn resumed_at(self, now: I) -> Self {
        RgbSequencer {
            start_time: Some(self.resumed_start(now)),
            pause_start_time: None,
            state: SequencerState::Running,
            ..self
        }
    }

    /// The sequencer paused at `now`, holding its start instant and color.
    pub closed spec fn paused_at(self, now: I) -> Self {
        RgbSequencer { pause_start_time: Some(now), state: SequencerState::Paused, ..self }
    }

    /// What `start_at` does: from `Loaded` it sets the clock running from `n0` and
    /// services once as read at `n1`; from any other state it fails with `InvalidState`
    /// and changes nothing.
    pub open spec fn starts_at(
        pre: &Self,
        n0: I,
        n1: I,
        post: &Self,
        r: Result<ServiceTiming<I::Duration>, SequencerError>,
    ) -> bool {
        if pre.state_spec() != SequencerState::Loaded {
            &&& r == Err::<ServiceTiming<I::Duration>, SequencerError>(
                invalid_state("Loaded", pre.state_spec()),
            )
            &&& post.unchanged(pre)
        } else {
            Self::services_to(&pre.started_at(n0), n1, post, r)
        }
    }

    /// What `restart_at` does: from `Running`, `Paused` or `Complete` it sets the clock
    /// running afresh from `n0`, discarding any pause, and services once as read at `n1`;
    /// from any other state it fails and changes nothing.
    pub open spec fn restarts_at(
        pre: &Self,
        n0: I,
        n1: I,
        post: &Self,
        r: Result<ServiceTiming<I::Duration>, SequencerError>,
    ) -> bool {
        if !is_started(pre.state_spec()) {
            &&& r == Err::<ServiceTiming<I::Duration>, SequencerError>(
                invalid_state("Running, Paused, or Complete", pre.state_spec()),
            )
            &&& post.unchanged(pre)
        } else {
            Self::services_to(&pre.started_at(n0), n1, post, r)
        }
    }

    /// What `resume_at` does: from `Paused` it pushes the start forward by the time from
    /// the recorded pause instant to `n0` and services once as read at `n1`; from any
    /// other state it fails and changes nothing.
    pub open spec fn resumes_at(
        pre: &Self,
        n0: I,
        n1: I,
        post: &Self,
        r: Result<ServiceTiming<I::Duration>, SequencerError>,
    ) -> bool {
        if pre.state_spec() != SequencerState::Paused {
            &&& r == Err::<ServiceTiming<I::Duration>, SequencerError>(
                invalid_state("Paused", pre.state_spec()),
            )
            &&& post.unchanged(pre)
        } else {
            Self::services_to(&pre.resumed_at(n0), n1, post, r)
        }
    }

    /// What `pause_at` does: from `Running` it records `now` as the pause instant and
    /// changes nothing else; otherwise nothing changes.
    pub open spec fn pauses_at(pre: &Self, now: I, post: &Self) -> bool {
        if pre.state_spec() == SequencerState::Running {
            *post == pre.paused_at(now)
        } else {
            post.unchanged(pre)
        }
    }

    /// What `start` does: from `Loaded` it sets the clock running from some instant and
    /// services once at some later reading; from any other state it fails with
    /// `InvalidState` and changes nothing.
    pub open spec fn starts_to(
        pre: &Self,
        post: &Self,
        r: Result<ServiceTiming<I::Duration>, SequencerError>,
    ) -> bool {
        if pre.state_spec() != SequencerState::Loaded {
            &&& r == Err::<ServiceTiming<I::Duration>, SequencerError>(
                invalid_state("Loaded", pre.state_spec()),
            )
            &&& post.unchanged(pre)
        } else {
            exists|n0: I, n1: I| #[trigger] Self::services_to(&pre.started_at(n0), n1, post, r)
        }
    }

    /// What `restart` does: from `Running`, `Paused` or `Complete` it sets the clock
    /// running afresh and services once; from any other state it fails and changes nothing.
    pub open spec fn restarts_to(
        pre: &Self,
        post: &Self,
        r: Result<ServiceTiming<I::Duration>, SequencerError>,
    ) -> bool {
        if !is_started(pre.state_spec()) {
            &&& r == Err::<ServiceTiming<I::Duration>, SequencerError>(
                invalid_state("Running, Paused, or Complete", pre.state_spec()),
            )
            &&& post.unchanged(pre)
        } else {
            exists|n0: I, n1: I| #[trigger] Self::services_to(&pre.started_at(n0), n1, post, r)
        }
    }

    /// What `resume` does: from `Paused` it pushes the start forward by the pause's length
    /// and services once; from any other state it fails and changes nothing.
    pub open spec fn resumes_to(
        pre: &Self,
        post: &Self,
        r: Result<ServiceTiming<I::Duration>, SequencerError>,
    ) -> bool {
        if pre.state_spec() != SequencerState::Paused {
            &&& r == Err::<ServiceTiming<I::Duration>, SequencerError>(
                invalid_state("Paused", pre.state_spec()),
            )
            &&& post.unchanged(pre)
        } else {
            exists|n0: I, n1: I| #[trigger] Self::services_to(&pre.resumed_at(n0), n1, post, r)
        }
    }

    /// The result of `stop` in a given state.
    pub open spec fn stop_result(state: SequencerState) -> Result<(), SequencerError> {
        if is_started(state) {
            Ok(())
        } else {
            Err(invalid_state("Running, Paused, or Complete", state))
        }
    }

    /// What `stop` does: from `Running`, `Paused` or `Complete` it returns to `Loaded`
    /// with the clock cleared and the LED off; otherwise nothing changes.
    pub open spec fn stops_to(pre: &Self, post: &Self) -> bool {
        if is_started(pre.state_spec()) {
            &&& post.state_spec() == SequencerState::Loaded
            &&& post.same_settings(pre)
            &&& post.start_time_spec() is None
            &&& post.pause_start_spec() is None
            &&& post.current_color_spec() == black_spec()
            &&& post.led_writes() == pre.led_writes().push(black_spec())
        } else {
            post.unchanged(pre)
        }
    }

    /// The result of `pause` in a given state.
    pub open spec fn pause_result(state: SequencerState) -> Result<(), SequencerError> {
        if state == SequencerState::Running {
            Ok(())
        } else {
            Err(invalid_state("Running", state))
        }
    }

    /// What `pause` does: from `Running` it records the pause instant and holds the
    /// current color; otherwise nothing changes.
    pub open spec fn pauses_to(pre: &Self, post: &Self) -> bool {
        if pre.state_spec() == SequencerState::Running {
            &&& post.state_spec() == SequencerState::Paused
            &&& post.pause_start_spec() is Some
            &&& post.same_settings(pre)
            &&& post.start_time_spec() == pre.start_time_spec()
            &&& post.unchanged_color(pre)
        } else {
            post.unchanged(pre)
        }
    }

    /// What `clear` does: unload the sequence, return to `Idle` and turn the LED off.
    pub open spec fn clears_to(pre: &Self, post: &Self) -> bool {
        &&& post.state_spec() == SequencerState::Idle
        &&& post.sequence_spec() is None
        &&& post.start_time_spec() is None
        &&& post.pause_start_spec() is None
        &&& post.current_color_spec() == black_spec()
        &&& post.led_writes() == pre.led_writes().push(black_spec())
        &&& post.color_epsilon_spec() == pre.color_epsilon_spec()
        &&& post.brightness_spec() == pre.brightness_spec()
    }

    /// What `handle_action` does for each action: the matching method's transition, with
    /// `Complete` reported for actions that carry no timing.
    pub open spec fn handles_to(
        pre: &Self,
        action: SequencerAction<I::Duration, N>,
        post: &Self,
        r: Result<ServiceTiming<I::Duration>, SequencerError>,
    ) -> bool {
        match action {
            SequencerAction::Load(s) => {
                &&& *post == pre.loaded(s)
                &&& r == Ok::<ServiceTiming<I::Duration>, SequencerError>(
                    ServiceTiming::Complete,
                )
            },
            SequencerAction::Start => Self::starts_to(pre, post, r),
            SequencerAction::Stop => {
                &&& Self::stops_to(pre, post)
                &&& r == match Self::stop_result(pre.state_spec()) {
                    Ok(_) => Ok(ServiceTiming::<I::Duration>::Complete),
                    Err(e) => Err(e),
                }
            },
            SequencerAction::Pause => {
                &&& Self::pauses_to(pre, post)
                &&& r == match Self::pause_result(pre.state_spec()) {
                    Ok(_) => Ok(ServiceTiming::<I::Duration>::Complete),
                    Err(e) => Err(e),
                }
            },
            SequencerAction::Resume => Self::resumes_to(pre, post, r),
            SequencerAction::Restart => Self::restarts_to(pre, post, r),
            SequencerAction::Clear => {
                &&& Self::clears_to(pre, post)
                &&& r == Ok::<ServiceTiming<I::Duration>, SequencerError>(
                    ServiceTiming::Complete,
                )
            },
            SequencerAction::SetBrightness(b) => {
                &&& *post == pre.brightness_set(b)
                &&& r == Ok::<ServiceTiming<I::Duration>, SequencerError>(
                    ServiceTiming::Complete,
                )
            },
        }
    }

    /// Creates sequencer with LED off and default color epsilon.
    pub fn new(led: L, time_source: &'t T) -> (s: Self)
        ensures
            s.valid(),
            s.state_spec() == SequencerState::Idle,
            s.sequence_spec() is None,
            s.start_time_spec() is None,
            s.pause_start_spec() is None,
            s.current_color_spec() == black_spec(),
            s.led_writes() == seq![black_spec()],
            s.color_epsilon_spec() == DEFAULT_COLOR_EPSILON,
            s.brightness_spec() == FULL_BRIGHTNESS,
    {
        Self::with_epsilon(led, time_source, DEFAULT_COLOR_EPSILON)
    }

    /// Creates sequencer with custom color epsilon threshold.
    pub fn with_epsilon(led: L, time_source: &'t T, epsilon: u16) -> (s: Self)
        ensures
            s.valid(),
            s.state_spec() == SequencerState::Idle,
            s.sequence_spec() is None,
            s.start_time_spec() is None,
            s.pause_start_spec() is None,
            s.current_color_spec() == black_spec(),
            s.led_writes() == seq![black_spec()],
            s.color_epsilon_spec() == epsilon,
            s.brightness_spec() == FULL_BRIGHTNESS,
    {
        let mut led = led;
        let off: Rgb = Rgb { r: 0, g: 0, b: 0 };
        led.set_color(off);
        let ghost w: Seq<Rgb> = seq![off];
        Self {
            led,
            time_source,
            state: SequencerState::Idle,
            sequence: None,
            start_time: None,
            pause_start_time: None,
            current_color: off,
            color_epsilon: epsilon,
            brightness: FULL_BRIGHTNESS,
            written: Ghost(w),
        }
    }

    /// Dispatches an action to the matching method. Actions that return no timing
    /// (`Load`, `Stop`, `Pause`, `Clear`, `SetBrightness`) report `Complete` on success.
    pub fn handle_action(&mut self, action: SequencerAction<I::Duration, N>) -> (r: Result<
        ServiceTiming<I::Duration>,
        SequencerError,
    >)
        requires
            old(self).valid(),
            action matches SequencerAction::Load(s) ==> s.valid(),
        ensures
            final(self).valid(),
            Self::handles_to(old(self), action, final(self), r),
    {
        match action {
            SequencerAction::Load(sequence) => {
                self.load(sequence);
                Ok(ServiceTiming::Complete)
            },
            SequencerAction::Start => self.start(),
            SequencerAction::Stop => {
                match self.stop() {
                    Ok(()) => Ok(ServiceTiming::Complete),
                    Err(e) => Err(e),
                }
            },
            SequencerAction::Pause => {
                match self.pause() {
                    Ok(()) => Ok(ServiceTiming::Complete),
                    Err(e) => Err(e),
                }
            },
            SequencerAction::Resume => self.resume(),
            SequencerAction::Restart => self.restart(),
            SequencerAction::Clear => {
                self.clear();
                Ok(ServiceTiming::Complete)
            },
            SequencerAction::SetBrightness(brightness) => {
                self.set_brightness(brightness);
                Ok(ServiceTiming::Complete)
            },
        }
    }

    /// Loads a sequence, replacing any loaded one and resetting the clock.
    pub fn load(&mut self, sequence: RgbSequence<I::Duration, N>)
        requires
            old(self).valid(),
            sequence.valid(),
        ensures
            final(self).valid(),
            *final(self) == old(self).loaded(sequence),
            final(self).state_spec() == SequencerState::Loaded,
            final(self).sequence_spec() == Some(sequence),
            final(self).start_time_spec() is None,
            final(self).pause_start_spec() is None,
            final(self).unchanged_color(old(self)),
            final(self).color_epsilon_spec() == old(self).color_epsilon_spec(),
            final(self).brightness_spec() == old(self).brightness_spec(),
    {
        self.sequence = Some(sequence);
        self.start_time = None;
        self.pause_start_time = None;
        self.state = SequencerState::Loaded;
    }

    /// Services the sequencer as read at `now`; see [`services_to`](Self::services_to).
    #[inline]
    pub fn service_at(&mut self, now: I) -> (r: Result<ServiceTiming<I::Duration>, SequencerError>)
        requires
            old(self).valid(),
        ensures
            final(self).valid(),
            Self::services_to(old(self), now, final(self), r),
    {
        if self.state != SequencerState::Running {
            return Err(SequencerError::InvalidState { expected: "Running", actual: self.state });
        }
        let (new_color, next_service) = match &self.sequence {
            Some(sequence) => {
                let start_time: I = match self.start_time {
                    Some(t) => t,
                    None => now,
                };
                let elapsed = now.duration_since(start_time);
                sequence.evaluate(elapsed)
            },
            None => {
                return Err(SequencerError::NoSequenceLoaded);
            },
        };
        // Apply brightness to the evaluated color; full brightness bypasses scaling.
        let dimmed_color: Rgb = if self.brightness == FULL_BRIGHTNESS {
            new_color
        } else {
            new_color.scale(self.brightness)
        };
        // Update the LED only if the color moved by at least the epsilon.
        if !dimmed_color.approx_eq(self.current_color, self.color_epsilon) {
            self.led.set_color(dimmed_color);
            self.current_color = dimmed_color;
            self.written = Ghost(self.written@.push(dimmed_color));
        }
        let ghost pre = *old(self);
        assert(self.shows(&pre, dimmed(new_color, pre.brightness_spec())));
        let r: Result<ServiceTiming<I::Duration>, SequencerError> = match next_service {
            None => {
                self.state = SequencerState::Complete;
                Ok(ServiceTiming::Complete)
            },
            Some(duration) => {
                if duration.as_millis() == 0 {
                    Ok(ServiceTiming::Continuous)
                } else {
                    Ok(ServiceTiming::Delay(duration))
                }
            },
        };
        assert(r == service_result(next_service));
        assert(self.shows(&pre, dimmed(new_color, pre.brightness_spec())));
        r
    }

    /// Services sequencer, updating LED if color changed.
    ///
    /// Must be called from `Running` state. Returns timing hint for next service call.
    #[inline]
    pub fn service(&mut self) -> (r: Result<ServiceTiming<I::Duration>, SequencerError>)
        requires
            old(self).valid(),
        ensures
            final(self).valid(),
            exists|now: I| Self::services_to(old(self), now, final(self), r),
    {
        let now: I = self.time_source.now();
        self.service_at(now)
    }

    /// Starts the sequence with the clock set running from `n0`, then services it as read
    /// at `n1`; see [`starts_at`](Self::starts_at).
    pub fn start_at(&mut self, n0: I, n1: I) -> (r: Result<ServiceTiming<I::Duration>, SequencerError>)
        requires
            old(self).valid(),
        ensures
            final(self).valid(),
            Self::starts_at(old(self), n0, n1, final(self), r),
    {
        if self.state != SequencerState::Loaded {
            return Err(SequencerError::InvalidState { expected: "Loaded", actual: self.state });
        }
        if self.sequence.is_none() {
            return Err(SequencerError::NoSequenceLoaded);
        }
        self.start_time = Some(n0);
        self.pause_start_time = None;
        self.state = SequencerState::Running;
        assert(*self == old(self).started_at(n0));
        self.service_at(n1)
    }

    /// Starts sequence.
    ///
    /// From `Loaded`, sets the clock running from the current instant and services once;
    /// from any other state fails with `InvalidState` and changes nothing.
    pub fn start(&mut self) -> (r: Result<ServiceTiming<I::Duration>, SequencerError>)
        requires
            old(self).valid(),
        ensures
            final(self).valid(),
            Self::starts_to(old(self), final(self), r),
    {
        if self.state != SequencerState::Loaded {
            return Err(SequencerError::InvalidState { expected: "Loaded", actual: self.state });
        }
        let n0: I = self.time_source.now();
        let n1: I = self.time_source.now();
        let r = self.start_at(n0, n1);
        assert(Self::services_to(&old(self).started_at(n0), n1, self, r));
        r
    }

    /// Loads and immediately starts a sequence.
    pub fn load_and_start(&mut self, sequence: RgbSequence<I::Duration, N>) -> (r: Result<
        ServiceTiming<I::Duration>,
        SequencerError,
    >)
        requires
            old(self).valid(),
            sequence.valid(),
        ensures
            final(self).valid(),
            exists|n0: I, n1: I|
                #[trigger] Self::services_to(
                    &old(self).loaded(sequence).started_at(n0),
                    n1,
                    final(self),
                    r,
                ),
    {
        self.load(sequence);
        self.start()
    }

    /// Restarts the sequence from the beginning with the clock set running from `n0`, then
    /// services it as read at `n1`; see [`restarts_at`](Self::restarts_at).
    pub fn restart_at(&mut self, n0: I, n1: I) -> (r: Result<ServiceTiming<I::Duration>, SequencerError>)
        requires
            old(self).valid(),
        ensures
            final(self).valid(),
            Self::restarts_at(old(self), n0, n1, final(self), r),
    {
        match self.state {
            SequencerState::Running | SequencerState::Paused | SequencerState::Complete => {
                if self.sequence.is_none() {
                    return Err(SequencerError::NoSequenceLoaded);
                }
                self.start_time = Some(n0);
                self.pause_start_time = None;
                self.state = SequencerState::Running;
                assert(*self == old(self).started_at(n0));
                self.service_at(n1)
            },
            _ => Err(
                SequencerError::InvalidState {
                    expected: "Running, Paused, or Complete",
                    actual: self.state,
                },
            ),
        }
    }

    /// Restarts sequence from the beginning (from `Running`, `Paused` or `Complete`).
    pub fn restart(&mut self) -> (r: Result<ServiceTiming<I::Duration>, SequencerError>)
        requires
            old(self).valid(),
        ensures
            final(self).valid(),
            Self::restarts_to(old(self), final(self), r),
    {
        match self.state {
            SequencerState::Running | SequencerState::Paused | SequencerState::Complete => {
                let n0: I = self.time_source.now();
                let n1: I = self.time_source.now();
                let r = self.restart_at(n0, n1);
                assert(Self::services_to(&old(self).started_at(n0), n1, self, r));
                r
            },
            _ => Err(
                SequencerError::InvalidState {
                    expected: "Running, Paused, or Complete",
                    actual: self.state,
                },
            ),
        }
    }

    /// Peeks at the timing hint as read at `now`, without updating LED or state.
    #[inline]
    pub fn peek_next_timing_at(&self, now: I) -> (r: Result<ServiceTiming<I::Duration>, SequencerError>)
        requires
            self.valid(),
        ensures
            self.peeks(now, r),
    {
        if self.state != SequencerState::Running {
            return Err(SequencerError::InvalidState { expected: "Running", actual: self.state });
        }
        match &self.sequence {
            Some(sequence) => {
                let start_time: I = match self.start_time {
                    Some(t) => t,
                    None => now,
                };
                let elapsed = now.duration_since(start_time);
                let (_color, next_service) = sequence.evaluate(elapsed);
                let r: Result<ServiceTiming<I::Duration>, SequencerError> = match next_service {
                    None => Ok(ServiceTiming::Complete),
                    Some(duration) => {
                        if duration.as_millis() == 0 {
                            Ok(ServiceTiming::Continuous)
                        } else {
                            Ok(ServiceTiming::Delay(duration))
                        }
                    },
                };
                assert(r == service_result(next_service));
                r
            },
            None => Err(SequencerError::NoSequenceLoaded),
        }
    }

    /// Peeks at next timing hint without updating LED or advancing state.
    ///
    /// Returns `SequencerError::InvalidState` if not in `Running` state.
    #[inline]
    pub fn peek_next_timing(&self) -> (r: Result<ServiceTiming<I::Duration>, SequencerError>)
        requires
            self.valid(),
        ensures
            exists|now: I| self.peeks(now, r),
    {
        let now: I = self.time_source.now();
        self.peek_next_timing_at(now)
    }

    /// Stops sequence and turns LED off (from `Running`, `Paused` or `Complete`).
    pub fn stop(&mut self) -> (r: Result<(), SequencerError>)
        requires
            old(self).valid(),
        ensures
            final(self).valid(),
            r == Self::stop_result(old(self).state_spec()),
            Self::stops_to(old(self), final(self)),

    {
        match self.state {
            SequencerState::Running | SequencerState::Paused | SequencerState::Complete => {
                self.start_time = None;
                self.pause_start_time = None;
                self.state = SequencerState::Loaded;
                let off: Rgb = Rgb { r: 0, g: 0, b: 0 };
                self.led.set_color(off);
                self.current_color = off;
                self.written = Ghost(self.written@.push(off));
                Ok(())
            },
            _ => Err(
                SequencerError::InvalidState {
                    expected: "Running, Paused, or Complete",
                    actual: self.state,
                },
            ),
        }
    }

    /// Pauses the sequence with `now` recorded as the pause instant; see
    /// [`pauses_at`](Self::pauses_at).
    pub fn pause_at(&mut self, now: I) -> (r: Result<(), SequencerError>)
        requires
            old(self).valid(),
        ensures
            final(self).valid(),
            r == Self::pause_result(old(self).state_spec()),
            Self::pauses_at(old(self), now, final(self)),
            Self::pauses_to(old(self), final(self)),
    {
        if self.state != SequencerState::Running {
            return Err(SequencerError::InvalidState { expected: "Running", actual: self.state });
        }
        self.pause_start_time = Some(now);
        self.state = SequencerState::Paused;
        assert(*self == old(self).paused_at(now));
        Ok(())
    }

    /// Pauses sequence at current color.
    ///
    /// Timing is compensated on resume - sequence continues from same position.
    pub fn pause(&mut self) -> (r: Result<(), SequencerError>)
        requires
            old(self).valid(),
        ensures
            final(self).valid(),
            r == Self::pause_result(old(self).state_spec()),
            Self::pauses_to(old(self), final(self)),
            old(self).state_spec() == SequencerState::Running ==> exists|now: I|
                *final(self) == #[trigger] old(self).paused_at(now),
    {
        if self.state != SequencerState::Running {
            return Err(SequencerError::InvalidState { expected: "Running", actual: self.state });
        }
        let now: I = self.time_source.now();
        let r = self.pause_at(now);
        assert(*self == old(self).paused_at(now));
        r
    }

    /// The start instant after a pause that began at `pause_start` ends at `now`: shifted
    /// forward by the pause's length, or unchanged if that addition overflows.
    pub fn compensated_start(start: I, pause_start: I, now: I) -> (s: I)
        ensures
            s == (match start.plus(now.since(pause_start)) {
                Some(x) => x,
                None => start,
            }),
    {
        let pause_duration = now.duration_since(pause_start);
        match start.checked_add(pause_duration) {
            Some(s) => s,
            None => start,
        }
    }

    /// Resumes the sequence as read at `n0`, pushing its start forward by the time since
    /// the recorded pause instant, then services it as read at `n1`; see
    /// [`resumes_at`](Self::resumes_at).
    pub fn resume_at(&mut self, n0: I, n1: I) -> (r: Result<ServiceTiming<I::Duration>, SequencerError>)
        requires
            old(self).valid(),
        ensures
            final(self).valid(),
            Self::resumes_at(old(self), n0, n1, final(self), r),
    {
        if self.state != SequencerState::Paused {
            return Err(SequencerError::InvalidState { expected: "Paused", actual: self.state });
        }
        let (old_start, pause_start): (I, I) = match (self.start_time, self.pause_start_time) {
            (Some(s), Some(p)) => (s, p),
            _ => (n0, n0),
        };
        self.start_time = Some(Self::compensated_start(old_start, pause_start, n0));
        self.pause_start_time = None;
        self.state = SequencerState::Running;
        assert(*self == old(self).resumed_at(n0));
        self.service_at(n1)
    }

    /// Resumes paused sequence, compensating the start time for the pause, and services.
    pub fn resume(&mut self) -> (r: Result<ServiceTiming<I::Duration>, SequencerError>)
        requires
            old(self).valid(),
        ensures
            final(self).valid(),
            Self::resumes_to(old(self), final(self), r),
    {
        if self.state != SequencerState::Paused {
            return Err(SequencerError::InvalidState { expected: "Paused", actual: self.state });
        }
        let n0: I = self.time_source.now();
        let n1: I = self.time_source.now();
        let r = self.resume_at(n0, n1);
        assert(Self::services_to(&old(self).resumed_at(n0), n1, self, r));
        r
    }

    /// Clears sequence and turns LED off.
    pub fn clear(&mut self)
        requires
            old(self).valid(),
        ensures
            final(self).valid(),
            Self::clears_to(old(self), final(self)),

    {
        self.sequence = None;
        self.start_time = None;
        self.pause_start_time = None;
        self.state = SequencerState::Idle;
        let off: Rgb = Rgb { r: 0, g: 0, b: 0 };
        self.led.set_color(off);
        self.current_color = off;
        self.written = Ghost(self.written@.push(off));
    }

    /// Returns current state.
    #[inline]
    pub fn state(&self) -> (s: SequencerState)
        ensures
            s == self.state_spec(),
    {
        self.state
    }

    /// Returns the color last written to the LED.
    #[inline]
    pub fn current_color(&self) -> (c: Rgb)
        ensures
            c == self.current_color_spec(),
    {
        self.current_color
    }

    /// Returns true if paused.
    #[inline]
    pub fn is_paused(&self) -> (b: bool)
        ensures
            b == (self.state_spec() == SequencerState::Paused),
    {
        self.state == SequencerState::Paused
    }

    /// Returns true if running.
    #[inline]
    pub fn is_running(&self) -> (b: bool)
        ensures
            b == (self.state_spec() == SequencerState::Running),
    {
        self.state == SequencerState::Running
    }

    /// Returns current sequence reference.
    #[inline]
    pub fn current_sequence(&self) -> (r: Option<&RgbSequence<I::Duration, N>>)
        ensures
            r is Some <==> self.sequence_spec() is Some,
            r matches Some(s) ==> *s == self.sequence_spec().unwrap(),
    {
        match &self.sequence {
            Some(s) => Some(s),
            None => None,
        }
    }

    /// Returns elapsed time since start, as read now.
    pub fn elapsed_time(&self) -> (r: Option<I::Duration>)
        ensures
            self.start_time_spec() is None ==> r is None,
            self.start_time_spec() matches Some(s) ==> exists|now: I|
                r == Some(#[trigger] now.since(s)),
    {
        match self.start_time {
            Some(start) => {
                let now: I = self.time_source.now();
                Some(now.duration_since(start))
            },
            None => None,
        }
    }

    /// Returns the current color epsilon threshold.
    #[inline]
    pub fn color_epsilon(&self) -> (e: u16)
        ensures
            e == self.color_epsilon_spec(),
    {
        self.color_epsilon
    }

    /// Sets the color epsilon threshold, the sensitivity of color change detection.
    #[inline]
    pub fn set_color_epsilon(&mut self, epsilon: u16)
        requires
            old(self).valid(),
        ensures
            final(self).valid(),
            *final(self) == old(self).epsilon_set(epsilon),
            final(self).color_epsilon_spec() == epsilon,
    {
        self.color_epsilon = epsilon;
    }

    /// Returns current brightness factor (65535 is full brightness).
    #[inline]
    pub fn brightness(&self) -> (b: u16)
        ensures
            b == self.brightness_spec(),
    {
        self.brightness
    }

    /// Sets global brightness factor, applied to every color before it reaches the LED.
    #[inline]
    pub fn set_brightness(&mut self, brightness: u16)
        requires
            old(self).valid(),
        ensures
            final(self).valid(),
            *final(self) == old(self).brightness_set(brightness),
            final(self).brightness_spec() == brightness,
    {
        self.brightness = brightness;
    }

    /// The playback position as read at `now`; `None` unless running a step-based
    /// sequence.
    #[inline]
    pub fn current_position_at(&self, now: I) -> (r: Option<Position>)
        requires
            self.valid(),
        ensures
            r == self.position_report(now),
    {
        if self.state != SequencerState::Running {
            return None;
        }
        match (&self.sequence, self.start_time) {
            (Some(sequence), Some(start_time)) => {
                let elapsed = now.duration_since(start_time);
                match sequence.find_step_position(elapsed) {
                    Some(p) => Some(Position { step_index: p.step_index, loop_number: p.current_loop }),
                    None => None,
                }
            },
            _ => None,
        }
    }

    /// Returns current playback position.
    ///
    /// Returns `None` if not running or sequence is function-based.
    #[inline]
    pub fn current_position(&self) -> (r: Option<Position>)
        requires
            self.valid(),
        ensures
            exists|now: I| r == #[trigger] self.position_report(now),
    {
        let now: I = self.time_source.now();
        self.current_position_at(now)
    }

    /// Consumes the sequencer and returns the LED.
    #[inline]
    pub fn into_led(self) -> (l: L)
        ensures
            l == self.led_spec(),
    {
        self.led
    }

    /// Consumes the sequencer and returns the LED and current sequence.
    #[inline]
    pub fn into_parts(self) -> (parts: (L, Option<RgbSequence<I::Duration, N>>))
        ensures
            parts.0 == self.led_spec(),
            parts.1 == self.sequence_spec(),
    {
        (self.led, self.sequence)
    }
}

impl<'t, I: TimeInstant, L: RgbLed, T: TimeSource<I>, const N: usize> RgbSequencer<'t, I, L, T, N> {
    /// What the transitions that `load`, `start`/`restart`, `resume` and the setters
    /// produce look like through the accessors.
    pub proof fn lemma_transition_views(self, sequence: RgbSequence<I::Duration, N>, now: I, x: u16)
        ensures
            self.loaded(sequence).state_spec() == SequencerState::Loaded,
            self.loaded(sequence).sequence_spec() == Some(sequence),
            self.loaded(sequence).start_time_spec() is None,
            self.loaded(sequence).pause_start_spec() is None,
            self.loaded(sequence).unchanged_color(&self),
            self.loaded(sequence).color_epsilon_spec() == self.color_epsilon_spec(),
            self.loaded(sequence).brightness_spec() == self.brightness_spec(),
            self.started_at(now).state_spec() == SequencerState::Running,
            self.started_at(now).start_time_spec() == Some(now),
            self.started_at(now).pause_start_spec() is None,
            self.started_at(now).same_settings(&self),
            self.started_at(now).unchanged_color(&self),
            self.resumed_at(now).state_spec() == SequencerState::Running,
            self.resumed_at(now).start_time_spec() == Some(self.resumed_start(now)),
            self.resumed_at(now).pause_start_spec() is None,
            self.resumed_at(now).same_settings(&self),
            self.resumed_at(now).unchanged_color(&self),
            self.paused_at(now).state_spec() == SequencerState::Paused,
            self.paused_at(now).pause_start_spec() == Some(now),
            self.paused_at(now).start_time_spec() == self.start_time_spec(),
            self.paused_at(now).same_settings(&self),
            self.paused_at(now).unchanged_color(&self),
            self.epsilon_set(x).color_epsilon_spec() == x,
            self.brightness_set(x).brightness_spec() == x,
            self.brightness_set(x).sequence_spec() == self.sequence_spec(),
            self.brightness_set(x).state_spec() == self.state_spec(),
    {
    }

    /// The LED always shows the sequencer's current color: it is the last color written.
    pub proof fn lemma_led_shows_current_color(self)
        requires
            self.valid(),
        ensures
            self.led_writes().len() > 0,
            self.led_writes().last() == self.current_color_spec(),
    {
    }

    /// A valid sequencer never reports `NoSequenceLoaded`: every state that needs a
    /// sequence has one.
    pub proof fn lemma_no_sequence_error_unreachable(
        pre: &Self,
        post: &Self,
        now: I,
        r: Result<ServiceTiming<I::Duration>, SequencerError>,
    )
        requires
            pre.valid(),
            Self::services_to(pre, now, post, r) || Self::starts_to(pre, post, r)
                || Self::restarts_to(pre, post, r) || Self::resumes_to(pre, post, r),
        ensures
            r != Err::<ServiceTiming<I::Duration>, SequencerError>(SequencerError::NoSequenceLoaded),
    {
        if Self::starts_to(pre, post, r) && pre.state_spec() == SequencerState::Loaded {
            let (n0, n1) = choose|n0: I, n1: I| #[trigger] Self::services_to(&pre.started_at(n0), n1, post, r);
        }
        if Self::restarts_to(pre, post, r) && is_started(pre.state_spec()) {
            let (n0, n1) = choose|n0: I, n1: I| #[trigger] Self::services_to(&pre.started_at(n0), n1, post, r);
        }
        if Self::resumes_to(pre, post, r) && pre.state_spec() == SequencerState::Paused {
            let (n0, n1) = choose|n0: I, n1: I| #[trigger] Self::services_to(&pre.resumed_at(n0), n1, post, r);
        }
    }

    /// Pausing does not advance the animation: on a clock whose instants `m` maps to
    /// milliseconds exactly, the time a resumed sequencer has played at a later instant `t`
    /// is the time it had played when paused plus the time since resuming - the paused
    /// interval is skipped.
    pub proof fn lemma_resume_skips_the_pause(paused: Self, resume: I, t: I, m: spec_fn(I) -> int)
        requires
            paused.valid(),
            paused.state_spec() == SequencerState::Paused,
            ({
                let s = paused.start_time_spec().unwrap();
                let p = paused.pause_start_spec().unwrap();
                let gap = resume.since(p);
                &&& m(s) <= m(p) <= m(resume) <= m(t)
                &&& gap.millis() == m(resume) - m(p)
                &&& s.plus(gap) matches Some(z) && m(z) == m(s) + gap.millis()
                    && t.since(z).millis() == m(t) - m(z)
            }),
        ensures
            paused.resumed_at(resume).elapsed_at(t) == (m(paused.pause_start_spec().unwrap()) - m(
                paused.start_time_spec().unwrap(),
            )) + (m(t) - m(resume)),
    {
    }

    /// Pause/resume compensation: a running sequencer paused (by `pause_at`) at `p` and
    /// resumed (by `resume_at`) at `q` continues from the paused position. On a clock whose
    /// instants `m` maps to milliseconds exactly, the time it has played at any later
    /// reading `t` is the time it had played at `p` plus the time since `q`.
    pub proof fn lemma_pause_resume_continues(running: Self, p: I, q: I, t: I, m: spec_fn(I) -> int)
        requires
            running.valid(),
            running.state_spec() == SequencerState::Running,
            ({
                let s = running.start_time_spec().unwrap();
                let gap = q.since(p);
                &&& m(s) <= m(p) <= m(q) <= m(t)
                &&& gap.millis() == m(q) - m(p)
                &&& s.plus(gap) matches Some(z) && m(z) == m(s) + gap.millis()
                    && t.since(z).millis() == m(t) - m(z)
            }),
        ensures
            running.paused_at(p).resumed_at(q).state_spec() == SequencerState::Running,
            running.paused_at(p).resumed_at(q).elapsed_at(t) == (m(p) - m(
                running.start_time_spec().unwrap(),
            )) + (m(t) - m(q)),
    {
        let paused = running.paused_at(p);
        assert(paused.valid());
        Self::lemma_resume_skips_the_pause(paused, q, t, m);
    }

    /// The LED is written exactly when the color moved. A service of a step-based sequence
    /// writes the dimmed color of the sequence at the elapsed time when any one channel of
    /// it - red, green or blue - differs from the current color by at least the epsilon, and
    /// otherwise writes nothing. Whatever the sequence, a service writes at most one color,
    /// and only one that moved by at least the epsilon in some channel.
    pub proof fn lemma_service_writes_changed_color(
        pre: &Self,
        now: I,
        post: &Self,
        r: Result<ServiceTiming<I::Duration>, SequencerError>,
    )
        requires
            pre.valid(),
            pre.state_spec() == SequencerState::Running,
            Self::services_to(pre, now, post, r),
        ensures
            ({
                let old_c = pre.current_color_spec();
                let new_c = post.current_color_spec();
                let e = pre.color_epsilon_spec();
                ||| new_c == old_c && post.led_writes() == pre.led_writes()
                ||| post.led_writes() == pre.led_writes().push(new_c) && moved_by(new_c, old_c, e)
            }),
            !pre.sequence_spec().unwrap().is_function_based_spec() ==> ({
                let target = dimmed(
                    pre.sequence_spec().unwrap().color_at_time(pre.elapsed_at(now)),
                    pre.brightness_spec(),
                );
                let old_c = pre.current_color_spec();
                &&& moved_by(target, old_c, pre.color_epsilon_spec()) ==> {
                    &&& post.current_color_spec() == target
                    &&& post.led_writes() == pre.led_writes().push(target)
                }
                &&& !moved_by(target, old_c, pre.color_epsilon_spec()) ==> {
                    &&& post.current_color_spec() == old_c
                    &&& post.led_writes() == pre.led_writes()
                }
            }),
    {
        let seq = pre.sequence_spec().unwrap();
        if seq.is_function_based_spec() {
            let (c, t) = choose|c: Rgb, t: Option<I::Duration>|
                post.shows(pre, dimmed(c, pre.brightness_spec())) && r == service_result(t);
            crate::color::lemma_approx_eq_channels(
                dimmed(c, pre.brightness_spec()),
                pre.current_color_spec(),
                pre.color_epsilon_spec(),
            );
        } else {
            crate::color::lemma_approx_eq_channels(
                dimmed(seq.color_at_time(pre.elapsed_at(now)), pre.brightness_spec()),
                pre.current_color_spec(),
                pre.color_epsilon_spec(),
            );
        }
    }

    /// Drift-free timing: servicing never moves the clock. A running step-based sequencer
    /// that has already been serviced reports, at any later reading, the same elapsed time
    /// and the same timing hint as if that earlier service had never happened.
    pub proof fn lemma_service_is_drift_free(
        pre: &Self,
        mid: &Self,
        post: &Self,
        direct: &Self,
        n1: I,
        n2: I,
        r1: Result<ServiceTiming<I::Duration>, SequencerError>,
        r2: Result<ServiceTiming<I::Duration>, SequencerError>,
        r3: Result<ServiceTiming<I::Duration>, SequencerError>,
    )
        requires
            pre.valid(),
            pre.state_spec() == SequencerState::Running,
            !pre.sequence_spec().unwrap().is_function_based_spec(),
            Self::services_to(pre, n1, mid, r1),
            mid.state_spec() == SequencerState::Running,
            Self::services_to(mid, n2, post, r2),
            Self::services_to(pre, n2, direct, r3),
        ensures
            mid.elapsed_at(n2) == pre.elapsed_at(n2),
            r2 matches Ok(t2) && r3 matches Ok(t3) && timing_hint(t2) == timing_hint(t3),
            post.state_spec() == direct.state_spec(),
    {
    }

    /// Brightness does not affect timing: two running sequencers that play the same
    /// step-based sequence from the same start instant report the same timing hint and
    /// reach the same state when serviced at the same reading, whatever their brightness.
    pub proof fn lemma_brightness_does_not_affect_timing(
        a: &Self,
        b: &Self,
        a_post: &Self,
        b_post: &Self,
        now: I,
        ra: Result<ServiceTiming<I::Duration>, SequencerError>,
        rb: Result<ServiceTiming<I::Duration>, SequencerError>,
    )
        requires
            a.valid(),
            b.valid(),
            a.state_spec() == SequencerState::Running,
            b.state_spec() == SequencerState::Running,
            a.sequence_spec() == b.sequence_spec(),
            a.start_time_spec() == b.start_time_spec(),
            !a.sequence_spec().unwrap().is_function_based_spec(),
            Self::services_to(a, now, a_post, ra),
            Self::services_to(b, now, b_post, rb),
        ensures
            ra matches Ok(ta) && rb matches Ok(tb) && timing_hint(ta) == timing_hint(tb),
            a_post.state_spec() == b_post.state_spec(),
    {
    }
}

/// Full brightness bypasses scaling without changing the result: scaling by full scale
/// is the identity, and every other brightness only ever dims.
pub proof fn lemma_brightness_only_dims(color: Rgb, brightness: u16)
    ensures
        dimmed(color, FULL_BRIGHTNESS) == scale_spec(color, FULL_BRIGHTNESS),
        dimmed(color, brightness).r <= color.r,
        dimmed(color, brightness).g <= color.g,
        dimmed(color, brightness).b <= color.b,
        brightness == 0 ==> dimmed(color, brightness) == black_spec(),
{
    crate::color::lemma_scale_laws(color, FULL_BRIGHTNESS);
    crate::color::lemma_scale_laws(color, brightness);
}

} // verus!
