//! RGB color sequence definitions and evaluation.
use vstd::prelude::*;

use crate::color::{Rgb, black_spec, lerp_spec, lemma_lerp_endpoints};
use crate::fixed::{
    ease_q15, ease_spec, progress_q15, progress_spec, lemma_ease_bounds, lemma_progress_bounds, ONE,
};
use crate::time::TimeDuration;
use crate::types::{LoopCount, SequenceError, SequenceStep, TransitionStyle};

verus! {

// ---------------------------------------------------------------------------
// Timeline model
// ---------------------------------------------------------------------------

/// Duration of step `i` in milliseconds.
pub open spec fn step_millis<D: TimeDuration>(steps: Seq<SequenceStep<D>>, i: int) -> int {
    steps[i].duration.millis() as int
}

/// Total duration of the first `k` steps in milliseconds.
pub open spec fn prefix_millis<D: TimeDuration>(steps: Seq<SequenceStep<D>>, k: int) -> int
    decreases k,
{
    if k <= 0 {
        0
    } else {
        prefix_millis(steps, k - 1) + step_millis(steps, k - 1)
    }
}

/// Total duration of one pass through all steps in milliseconds.
pub open spec fn total_millis<D: TimeDuration>(steps: Seq<SequenceStep<D>>) -> int {
    prefix_millis(steps, steps.len() as int)
}

/// Step `i` is the one playing at time `t` within a loop: it starts at or before `t`
/// and ends after it.
pub open spec fn step_covers<D: TimeDuration>(steps: Seq<SequenceStep<D>>, i: int, t: int) -> bool {
    &&& 0 <= i < steps.len()
    &&& prefix_millis(steps, i) <= t < prefix_millis(steps, i + 1)
}

/// The step playing at time `t` within a loop (unique, see [`lemma_step_covers_unique`]).
pub open spec fn step_at<D: TimeDuration>(steps: Seq<SequenceStep<D>>, t: int) -> int {
    choose|i: int| step_covers(steps, i, t)
}

/// Whether a step's duration is zero while its transition interpolates.
pub open spec fn zero_duration_interpolating<D: TimeDuration>(step: SequenceStep<D>) -> bool {
    step.duration.millis() == 0 && step.transition.interpolates()
}

/// The first error that building a sequence from these parts reports, if any.
pub open spec fn build_error<D: TimeDuration>(
    steps: Seq<SequenceStep<D>>,
    loop_count: LoopCount,
    start_color: Option<Rgb>,
    landing_color: Option<Rgb>,
) -> Option<SequenceError> {
    if steps.len() == 0 {
        Some(SequenceError::EmptySequence)
    } else if exists|i: int| 0 <= i < steps.len() && zero_duration_interpolating(#[trigger] steps[i]) {
        Some(SequenceError::ZeroDurationWithLinear)
    } else if start_color is Some && !steps[0].transition.interpolates() {
        Some(SequenceError::StartColorWithStepTransition)
    } else if landing_color is Some && loop_count == LoopCount::Infinite {
        Some(SequenceError::LandingColorWithInfiniteLoop)
    } else {
        None
    }
}

/// Position within a step-based sequence: step index, time into the step, time until
/// the step ends, whether the sequence is complete, and the loop number (all in
/// milliseconds where they are times).
pub type PositionModel = (int, int, int, bool, int);

// ---------------------------------------------------------------------------
// Timeline lemmas
// ---------------------------------------------------------------------------

/// Prefix sums never decrease.
pub proof fn lemma_prefix_monotone<D: TimeDuration>(steps: Seq<SequenceStep<D>>, i: int, j: int)
    requires
        0 <= i <= j,
    ensures
        0 <= prefix_millis(steps, i) <= prefix_millis(steps, j),
    decreases j,
{
    if j > i {
        lemma_prefix_monotone(steps, i, j - 1);
    } else {
        lemma_prefix_nonneg(steps, i);
    }
}

/// Prefix sums are never negative.
pub proof fn lemma_prefix_nonneg<D: TimeDuration>(steps: Seq<SequenceStep<D>>, k: int)
    ensures
        0 <= prefix_millis(steps, k),
    decreases k,
{
    if k > 0 {
        lemma_prefix_nonneg(steps, k - 1);
    }
}

/// At most one step covers any time within a loop.
pub proof fn lemma_step_covers_unique<D: TimeDuration>(
    steps: Seq<SequenceStep<D>>,
    i: int,
    j: int,
    t: int,
)
    requires
        step_covers(steps, i, t),
        step_covers(steps, j, t),
    ensures
        i == j,
{
    if i < j {
        lemma_prefix_monotone(steps, i + 1, j);
    } else if j < i {
        lemma_prefix_monotone(steps, j + 1, i);
    }
}

/// Any time within one loop is covered by exactly the step [`step_at`] names.
pub proof fn lemma_step_at<D: TimeDuration>(steps: Seq<SequenceStep<D>>, t: int, i: int)
    requires
        step_covers(steps, i, t),
    ensures
        step_at(steps, t) == i,
{
    lemma_step_covers_unique(steps, i, step_at(steps, t), t);
}

// ---------------------------------------------------------------------------
// User-supplied functions
// ---------------------------------------------------------------------------

/// Color function of a function-based sequence: maps the base color and the elapsed
/// time to the color to show.
#[verifier::external_body]
#[verifier::reject_recursive_types(D)]
#[derive(Debug, Copy)]
pub struct ColorFn<D>(pub fn(Rgb, D) -> Rgb);

/// Timing function of a function-based sequence: maps the elapsed time to the next
/// service delay (`None` once the animation is complete).
#[verifier::external_body]
#[verifier::reject_recursive_types(D)]
#[derive(Debug, Copy)]
pub struct TimingFn<D>(pub fn(D) -> Option<D>);

impl<D: Copy> Clone for ColorFn<D> {
    /// The same function.
    fn clone(&self) -> (c: Self)
        ensures
            c == *self,
    {
        *self
    }
}

impl<D: Copy> Clone for TimingFn<D> {
    /// The same function.
    fn clone(&self) -> (c: Self)
        ensures
            c == *self,
    {
        *self
    }
}

impl<D> ColorFn<D> {
    /// Calls the user's color function. Nothing is known of what user code returns.
    #[verifier::external_body]
    fn call(&self, base: Rgb, elapsed: D) -> Rgb {
        (self.0)(base, elapsed)
    }
}

impl<D> TimingFn<D> {
    /// Calls the user's timing function. Nothing is known of what user code returns.
    #[verifier::external_body]
    fn call(&self, elapsed: D) -> Option<D> {
        (self.0)(elapsed)
    }
}

// ---------------------------------------------------------------------------
// Sequence
// ---------------------------------------------------------------------------

/// Position within a sequence.
#[derive(Debug, Clone, Copy)]
pub struct StepPosition<D: TimeDuration> {
    /// Current step index.
    pub step_index: usize,
    /// Elapsed time in current step.
    pub time_in_step: D,
    /// Time remaining until step ends.
    pub time_until_step_end: D,
    /// Whether sequence is complete.
    pub is_complete: bool,
    /// Current loop iteration.
    pub current_loop: u32,
}

impl<D: TimeDuration> StepPosition<D> {
    /// The position as plain values.
    pub open spec fn model(&self) -> PositionModel {
        (
            self.step_index as int,
            self.time_in_step.millis() as int,
            self.time_until_step_end.millis() as int,
            self.is_complete,
            self.current_loop as int,
        )
    }
}

/// An RGB color sequence.
#[derive(Debug, Clone)]
#[verifier::reject_recursive_types(D)]
pub struct RgbSequence<D: TimeDuration, const N: usize> {
    steps: Vec<SequenceStep<D>>,
    loop_count: LoopCount,
    start_color: Option<Rgb>,
    landing_color: Option<Rgb>,
    loop_duration: D,
    color_fn: Option<ColorFn<D>>,
    timing_fn: Option<TimingFn<D>>,
}

impl<D: TimeDuration, const N: usize> RgbSequence<D, N> {
    /// The steps of a step-based sequence (empty for a function-based one).
    pub closed spec fn steps_spec(&self) -> Seq<SequenceStep<D>> {
        self.steps@
    }

    /// How many times the sequence repeats.
    pub closed spec fn loop_count_spec(&self) -> LoopCount {
        self.loop_count
    }

    /// Color the first interpolating step of the first loop starts from, if any.
    pub closed spec fn start_color_spec(&self) -> Option<Rgb> {
        self.start_color
    }

    /// Color shown once a finite sequence completes, if any.
    pub closed spec fn landing_color_spec(&self) -> Option<Rgb> {
        self.landing_color
    }

    /// Cached duration of one loop.
    pub closed spec fn loop_duration_spec(&self) -> D {
        self.loop_duration
    }

    /// Whether the sequence is driven by user functions rather than steps.
    pub closed spec fn is_function_based_spec(&self) -> bool {
        self.color_fn is Some
    }

    /// Well-formedness: what `build` and `from_function` establish.
    pub closed spec fn valid(&self) -> bool {
        &&& self.steps@.len() <= N
        &&& (self.color_fn is Some <==> self.timing_fn is Some)
        &&& self.loop_duration.millis() == total_millis(self.steps@)
        &&& (self.color_fn is Some ==> self.steps@.len() == 0)
        &&& (self.color_fn is None ==> build_error(
            self.steps@,
            self.loop_count,
            self.start_color,
            self.landing_color,
        ) is None)
    }

    /// Total length of one loop in milliseconds.
    pub open spec fn loop_millis(&self) -> int {
        total_millis(self.steps_spec())
    }

    /// Whether a step-based sequence has finished all its loops at `elapsed`.
    pub open spec fn is_complete_at(&self, elapsed: int) -> bool {
        match self.loop_count_spec() {
            LoopCount::Finite(count) => if self.loop_millis() == 0 {
                elapsed > 0
            } else {
                elapsed >= self.loop_millis() * count
            },
            LoopCount::Infinite => false,
        }
    }

    /// Where a step-based sequence is at `elapsed` milliseconds.
    pub open spec fn position_at(&self, elapsed: int) -> Option<PositionModel> {
        let steps = self.steps_spec();
        let n = steps.len() as int;
        if n == 0 {
            None
        } else if self.loop_millis() == 0 {
            let complete = elapsed > 0;
            Some((if complete { n - 1 } else { 0 }, 0, 0, complete, 0))
        } else if self.is_complete_at(elapsed) {
            let loops = match self.loop_count_spec() {
                LoopCount::Finite(count) => if count > 0 { count - 1 } else { 0 },
                LoopCount::Infinite => 0,
            };
            Some((n - 1, step_millis(steps, n - 1), 0, true, loops))
        } else {
            let t = elapsed % self.loop_millis();
            let i = step_at(steps, t);
            Some(
                (
                    i,
                    t - prefix_millis(steps, i),
                    prefix_millis(steps, i + 1) - t,
                    false,
                    (elapsed / self.loop_millis()) % 0x1_0000_0000,
                ),
            )
        }
    }

    /// The color a step interpolates from at a given step index and loop.
    pub open spec fn previous_color(&self, index: int, current_loop: int) -> Rgb {
        let steps = self.steps_spec();
        if index == 0 && current_loop == 0 && self.start_color_spec() is Some {
            self.start_color_spec().unwrap()
        } else if index == 0 {
            steps.last().color
        } else {
            steps[index - 1].color
        }
    }

    /// The color shown at a position of a step-based sequence.
    pub open spec fn color_at(&self, pos: PositionModel) -> Rgb {
        let steps = self.steps_spec();
        let (index, time_in_step, _until, complete, current_loop) = pos;
        if complete {
            match self.landing_color_spec() {
                Some(c) => c,
                None => steps.last().color,
            }
        } else {
            let step = steps[index];
            if !step.transition.interpolates() || step.duration.millis() == 0 {
                step.color
            } else {
                let progress = progress_spec(time_in_step as u64, step.duration.millis());
                let eased = ease_spec(progress, step.transition);
                lerp_spec(self.previous_color(index, current_loop), step.color, eased as u16)
            }
        }
    }

    /// The next service delay at a position of a step-based sequence: `None` once
    /// complete, zero during an interpolating step, else the time until the step ends.
    pub open spec fn timing_at(&self, pos: PositionModel) -> Option<int> {
        let (index, _in_step, until, complete, _loop) = pos;
        if complete {
            None
        } else if self.steps_spec()[index].transition.interpolates() {
            Some(0)
        } else {
            Some(until)
        }
    }

    /// Color of a step-based sequence at `elapsed` milliseconds.
    pub open spec fn color_at_time(&self, elapsed: int) -> Rgb {
        self.color_at(self.position_at(elapsed).unwrap())
    }

    /// Next service delay of a step-based sequence at `elapsed` milliseconds.
    pub open spec fn timing_at_time(&self, elapsed: int) -> Option<int> {
        self.timing_at(self.position_at(elapsed).unwrap())
    }
}

impl<D: TimeDuration, const N: usize> RgbSequence<D, N> {
    /// Creates a new sequence builder for step-based sequences.
    pub fn builder() -> (b: SequenceBuilder<D, N>)
        ensures
            b.valid(),
            b.steps_spec() == Seq::<SequenceStep<D>>::empty(),
            b.loop_count_spec() == LoopCount::Finite(1),
            b.landing_color_spec() is None,
            b.start_color_spec() is None,
    {
        SequenceBuilder::new()
    }

    /// Creates a function-based sequence for algorithmic animations.
    ///
    /// The color function receives the base color and elapsed time and returns the
    /// current color. The timing function returns the next service delay (zero for
    /// continuous updates, `None` when complete).
    pub fn from_function(base_color: Rgb, color_fn: ColorFn<D>, timing_fn: TimingFn<D>) -> (s: Self)
        ensures
            s.valid(),
            s.is_function_based_spec(),
            s.steps_spec() == Seq::<SequenceStep<D>>::empty(),
            s.loop_count_spec() == LoopCount::Finite(1),
            s.landing_color_spec() is None,
            s.start_color_spec() == Some(base_color),
            s.loop_duration_spec().millis() == 0,
    {
        Self {
            steps: Vec::new(),
            loop_count: LoopCount::Finite(1),
            landing_color: None,
            loop_duration: D::from_millis(0),
            start_color: Some(base_color),
            color_fn: Some(color_fn),
            timing_fn: Some(timing_fn),
        }
    }

    /// Creates a single-step sequence that holds one color, with zero duration.
    ///
    /// Returns `SequenceError::CapacityExceeded` if `N < 1`.
    pub fn solid(color: Rgb) -> (r: Result<Self, SequenceError>)
        ensures
            N == 0 <==> r is Err,
            r is Err ==> r->Err_0 == SequenceError::CapacityExceeded,
            r matches Ok(s) ==> {
                &&& s.valid()
                &&& !s.is_function_based_spec()
                &&& s.steps_spec().len() == 1
                &&& s.steps_spec()[0].color == color
                &&& s.steps_spec()[0].duration.millis() == 0
                &&& s.steps_spec()[0].transition == TransitionStyle::Step
                &&& s.loop_count_spec() == LoopCount::Finite(1)
                &&& s.landing_color_spec() is None
                &&& s.start_color_spec() is None
            },
    {
        let b = Self::builder();
        match b.step(color, D::from_millis(0), TransitionStyle::Step) {
            Err(e) => Err(e),
            Ok(b) => {
                let ghost steps = b.steps_spec();
                assert(total_millis(steps) == 0) by {
                    reveal_with_fuel(prefix_millis, 2);
                }
                assert(!zero_duration_interpolating(steps[0]));
                b.build()
            },
        }
    }

    /// Evaluates color and next service time at elapsed time.
    ///
    /// Returns `(color, timing)` where timing is zero for continuous animation, a delay
    /// for a static hold, or `None` when the sequence completes. For a step-based
    /// sequence both are exactly [`color_at_time`](Self::color_at_time) and
    /// [`timing_at_time`](Self::timing_at_time); a function-based one returns what its
    /// color function gives for [`base_color`](Self::base_color) and `elapsed`, and what its
    /// timing function gives for `elapsed`.
    #[inline]
    pub fn evaluate(&self, elapsed: D) -> (r: (Rgb, Option<D>))
        requires
            self.valid(),
        ensures
            !self.is_function_based_spec() ==> {
                &&& r.0 == self.color_at_time(elapsed.millis() as int)
                &&& (r.1 is Some <==> self.timing_at_time(elapsed.millis() as int) is Some)
                &&& r.1 matches Some(d) ==> d.millis() == self.timing_at_time(
                    elapsed.millis() as int,
                ).unwrap()
            },
    {
        // Use custom functions if present
        if let (Some(color_fn), Some(timing_fn)) = (&self.color_fn, &self.timing_fn) {
            let base: Rgb = self.base_color();
            return (color_fn.call(base, elapsed), timing_fn.call(elapsed));
        }
        // Step-based evaluation - calculate position once
        let position = self.find_step_position(elapsed);
        match position {
            Some(position) => {
                let color: Rgb = self.color_at_position(&position);
                let timing: Option<D> = self.next_service_time_from_position(&position);
                (color, timing)
            },
            None => (Rgb { r: 0, g: 0, b: 0 }, None),
        }
    }

    /// The base color handed to a function-based sequence's color function: the color
    /// the sequence was created from, or black if it has none.
    #[inline]
    pub fn base_color(&self) -> (c: Rgb)
        ensures
            c == (match self.start_color_spec() {
                Some(s) => s,
                None => black_spec(),
            }),
    {
        match self.start_color {
            Some(c) => c,
            None => Rgb { r: 0, g: 0, b: 0 },
        }
    }

    /// Returns true if step-based finite sequence has completed all loops.
    #[inline]
    fn is_complete_step_based(&self, elapsed: D) -> (r: bool)
        requires
            self.valid(),
        ensures
            r == self.is_complete_at(elapsed.millis() as int),
    {
        match self.loop_count {
            LoopCount::Finite(count) => {
                let loop_millis: u64 = self.loop_duration.as_millis();
                if loop_millis == 0 {
                    elapsed.as_millis() > 0
                } else {
                    // Widened so that no loop count can overflow the product.
                    assert((loop_millis as u128) * (count as u128) <= 0xffff_ffff_ffff_ffff
                        * 0xffff_ffff) by (nonlinear_arith)
                        requires
                            loop_millis <= 0xffff_ffff_ffff_ffffu64,
                            count <= 0xffff_ffffu32,
                    ;
                    let total_duration: u128 = loop_millis as u128 * count as u128;
                    elapsed.as_millis() as u128 >= total_duration
                }
            },
            LoopCount::Infinite => false,
        }
    }

    /// Creates position for zero-duration sequences.
    #[inline]
    fn handle_zero_duration_sequence(&self, elapsed: D) -> (p: StepPosition<D>)
        requires
            self.valid(),
            self.steps_spec().len() > 0,
            self.loop_millis() == 0,
        ensures
            Some(p.model()) == self.position_at(elapsed.millis() as int),
    {
        let is_complete: bool = elapsed.as_millis() > 0;
        let step_index: usize = if is_complete {
            self.steps.len() - 1
        } else {
            0
        };
        StepPosition {
            step_index,
            time_in_step: D::from_millis(0),
            time_until_step_end: D::from_millis(0),
            is_complete,
            current_loop: 0,
        }
    }

    /// Creates position representing sequence completion.
    #[inline]
    fn create_complete_position(&self) -> (p: StepPosition<D>)
        requires
            self.valid(),
            self.steps_spec().len() > 0,
        ensures
            p.model() == (
                self.steps_spec().len() - 1,
                step_millis(self.steps_spec(), self.steps_spec().len() - 1),
                0int,
                true,
                match self.loop_count_spec() {
                    LoopCount::Finite(count) => if count > 0 {
                        count - 1
                    } else {
                        0
                    },
                    LoopCount::Infinite => 0,
                },
            ),
    {
        let last_index: usize = self.steps.len() - 1;
        let loop_count: u32 = match self.loop_count {
            LoopCount::Finite(count) => count,
            LoopCount::Infinite => 0,
        };
        StepPosition {
            step_index: last_index,
            time_in_step: self.steps[last_index].duration,
            time_until_step_end: D::from_millis(0),
            is_complete: true,
            current_loop: loop_count.saturating_sub(1),
        }
    }

    /// Finds the step position at a specific time within a loop.
    ///
    /// A time within the loop lands in the step that covers it; a time at or past the
    /// end of the loop lands at the end of the last step.
    #[inline]
    fn find_step_at_time(&self, time_in_loop: D, current_loop: u32) -> (p: StepPosition<D>)
        requires
            self.valid(),
            !self.is_function_based_spec(),
        ensures
            time_in_loop.millis() < self.loop_millis() ==> {
                &&& step_covers(
                    self.steps_spec(),
                    p.step_index as int,
                    time_in_loop.millis() as int,
                )
                &&& p.model() == (
                    p.step_index as int,
                    time_in_loop.millis() - prefix_millis(self.steps_spec(), p.step_index as int),
                    prefix_millis(self.steps_spec(), p.step_index + 1) - time_in_loop.millis(),
                    false,
                    current_loop as int,
                )
            },
            time_in_loop.millis() >= self.loop_millis() ==> p.model() == (
                self.steps_spec().len() - 1,
                step_millis(self.steps_spec(), self.steps_spec().len() - 1),
                0int,
                false,
                current_loop as int,
            ),
    {
        let ghost steps = self.steps@;
        let n: usize = self.steps.len();
        let t: u64 = time_in_loop.as_millis();
        let mut accumulated: u64 = 0;
        let mut step_idx: usize = 0;
        while step_idx < n
            invariant
                n == steps.len(),
                n > 0,
                steps == self.steps@,
                t == time_in_loop.millis(),
                total_millis(steps) == self.loop_duration_spec().millis(),
                0 <= step_idx <= n,
                accumulated == prefix_millis(steps, step_idx as int),
                accumulated <= t,
            decreases n - step_idx,
        {
            proof {
                lemma_prefix_monotone(steps, step_idx as int + 1, n as int);
            }
            let step_end: u64 = accumulated + self.steps[step_idx].duration.as_millis();
            let step_end_time: D = D::from_millis(step_end);
            if t < step_end_time.as_millis() {
                let time_in_step: D = D::from_millis(t - accumulated);
                let time_until_end: D = step_end_time.saturating_sub(time_in_loop);
                return StepPosition {
                    step_index: step_idx,
                    time_in_step,
                    time_until_step_end: time_until_end,
                    is_complete: false,
                    current_loop,
                };
            }
            accumulated = step_end;
            step_idx = step_idx + 1;
        }
        // No step ends after the time: it lies at or past the end of the loop.
        let last_index: usize = n - 1;
        StepPosition {
            step_index: last_index,
            time_in_step: self.steps[last_index].duration,
            time_until_step_end: D::from_millis(0),
            is_complete: false,
            current_loop,
        }
    }

    /// Returns the current position within the sequence at the given elapsed time.
    ///
    /// Includes step index, loop number, and timing information within the current step.
    /// Returns `None` if the sequence is empty or function-based.
    pub fn find_step_position(&self, elapsed: D) -> (r: Option<StepPosition<D>>)
        requires
            self.valid(),
        ensures
            r is Some <==> self.position_at(elapsed.millis() as int) is Some,
            r matches Some(p) ==> Some(p.model()) == self.position_at(elapsed.millis() as int),
            r matches Some(p) ==> p.step_index < self.steps_spec().len(),
            self.is_function_based_spec() ==> r is None,
    {
        if self.steps.len() == 0 {
            return None;
        }
        let loop_millis: u64 = self.loop_duration.as_millis();
        if loop_millis == 0 {
            return Some(self.handle_zero_duration_sequence(elapsed));
        }
        if self.is_complete_step_based(elapsed) {
            return Some(self.create_complete_position());
        }
        let elapsed_millis: u64 = elapsed.as_millis();
        let loops: u64 = elapsed_millis / loop_millis;
        let current_loop: u32 = loops as u32;
        let time_in_loop: D = D::from_millis(elapsed_millis % loop_millis);
        let p = self.find_step_at_time(time_in_loop, current_loop);
        proof {
            lemma_step_at(self.steps@, time_in_loop.millis() as int, p.step_index as int);
            assert(current_loop as u64 == loops % 0x1_0000_0000u64) by (bit_vector)
                requires
                    current_loop == loops as u32,
            ;
        }
        Some(p)
    }

    /// Interpolates color at current position with easing applied.
    #[inline]
    fn interpolate_color(&self, position: &StepPosition<D>, step: &SequenceStep<D>) -> (c: Rgb)
        requires
            self.valid(),
            !position.is_complete,
            position.step_index < self.steps_spec().len(),
            *step == self.steps_spec()[position.step_index as int],
            step.transition.interpolates(),
        ensures
            c == self.color_at(position.model()),
    {
        // The start color applies to the first step of the first loop only.
        let use_start_color: bool = position.step_index == 0 && position.current_loop == 0
            && self.start_color.is_some();
        let previous_color: Rgb = if use_start_color {
            self.start_color.unwrap()
        } else if position.step_index == 0 {
            self.steps[self.steps.len() - 1].color
        } else {
            self.steps[position.step_index - 1].color
        };
        let duration_millis: u64 = step.duration.as_millis();
        if duration_millis == 0 {
            return step.color;
        }
        let time_millis: u64 = position.time_in_step.as_millis();
        let progress: u16 = progress_q15(time_millis, duration_millis);
        let eased: u16 = ease_q15(progress, step.transition);
        proof {
            lemma_lerp_endpoints(previous_color, step.color, eased);
        }
        previous_color.lerp(step.color, eased)
    }

    /// Returns the color at the given position.
    #[inline]
    fn color_at_position(&self, position: &StepPosition<D>) -> (c: Rgb)
        requires
            self.valid(),
            self.steps_spec().len() > 0,
            position.step_index < self.steps_spec().len(),
        ensures
            c == self.color_at(position.model()),
    {
        if position.is_complete {
            return match self.landing_color {
                Some(c) => c,
                None => self.steps[self.steps.len() - 1].color,
            };
        }
        let step: SequenceStep<D> = self.steps[position.step_index];
        if is_interpolating(step.transition) {
            self.interpolate_color(position, &step)
        } else {
            step.color
        }
    }

    /// Returns next service delay based on position and transition type.
    #[inline]
    fn next_service_time_from_position(&self, position: &StepPosition<D>) -> (r: Option<D>)
        requires
            self.valid(),
            position.step_index < self.steps_spec().len(),
        ensures
            (r is Some <==> self.timing_at(position.model()) is Some),
            r matches Some(d) ==> d.millis() == self.timing_at(position.model()).unwrap(),
    {
        if position.is_complete {
            return None;
        }
        let step: SequenceStep<D> = self.steps[position.step_index];
        if is_interpolating(step.transition) {
            // Interpolating transitions need continuous updates
            Some(D::from_millis(0))
        } else {
            // Step transition can wait until the end
            Some(position.time_until_step_end)
        }
    }

    /// Returns true if sequence has completed.
    ///
    /// A step-based sequence has completed exactly when
    /// [`is_complete_at`](Self::is_complete_at) holds; a function-based one when its
    /// timing function returns `None`.
    #[inline]
    pub fn has_completed(&self, elapsed: D) -> (r: bool)
        requires
            self.valid(),
        ensures
            !self.is_function_based_spec() ==> r == self.is_complete_at(elapsed.millis() as int),
    {
        match &self.timing_fn {
            Some(timing_fn) => timing_fn.call(elapsed).is_none(),
            None => self.is_complete_step_based(elapsed),
        }
    }

    /// Returns loop duration.
    #[inline]
    pub fn loop_duration(&self) -> (d: D)
        ensures
            d == self.loop_duration_spec(),
    {
        self.loop_duration
    }

    /// Returns step count.
    #[inline]
    pub fn step_count(&self) -> (n: usize)
        ensures
            n == self.steps_spec().len(),
    {
        self.steps.len()
    }

    /// Returns loop count.
    #[inline]
    pub fn loop_count(&self) -> (c: LoopCount)
        ensures
            c == self.loop_count_spec(),
    {
        self.loop_count
    }

    /// Returns landing color.
    #[inline]
    pub fn landing_color(&self) -> (c: Option<Rgb>)
        ensures
            c == self.landing_color_spec(),
    {
        self.landing_color
    }

    /// Returns start color.
    #[inline]
    pub fn start_color(&self) -> (c: Option<Rgb>)
        ensures
            c == self.start_color_spec(),
    {
        self.start_color
    }

    /// Returns step at index.
    #[inline]
    pub fn get_step(&self, index: usize) -> (r: Option<&SequenceStep<D>>)
        ensures
            index < self.steps_spec().len() <==> r is Some,
            r matches Some(step) ==> *step == self.steps_spec()[index as int],
    {
        if index < self.steps.len() {
            Some(&self.steps[index])
        } else {
            None
        }
    }

    /// Returns true if function-based.
    #[inline]
    pub fn is_function_based(&self) -> (r: bool)
        ensures
            r == self.is_function_based_spec(),
    {
        self.color_fn.is_some()
    }
}

// ---------------------------------------------------------------------------
// Laws
// ---------------------------------------------------------------------------

/// Seamless looping: an infinite sequence shows the same color and asks for the same
/// service delay one loop later. The start color only plays into the very first loop,
/// so with one set the law holds from the second loop on, as long as the 32-bit loop
/// counter does not wrap back to zero.
pub proof fn lemma_infinite_sequence_is_periodic<D: TimeDuration, const N: usize>(
    seq: RgbSequence<D, N>,
    elapsed: int,
)
    requires
        seq.valid(),
        !seq.is_function_based_spec(),
        seq.loop_count_spec() == LoopCount::Infinite,
        seq.loop_millis() > 0,
        elapsed >= 0,
        seq.start_color_spec() is None || ((elapsed / seq.loop_millis()) % 0x1_0000_0000 != 0
            && (elapsed / seq.loop_millis() + 1) % 0x1_0000_0000 != 0),
    ensures
        seq.color_at_time(elapsed + seq.loop_millis()) == seq.color_at_time(elapsed),
        seq.timing_at_time(elapsed + seq.loop_millis()) == seq.timing_at_time(elapsed),
{
    let l = seq.loop_millis();
    vstd::arithmetic::div_mod::lemma_mod_add_multiples_vanish(elapsed, l);
    vstd::arithmetic::div_mod::lemma_div_plus_one(elapsed, l);
    assert((l + elapsed) % l == (elapsed + l) % l);
    assert((l + elapsed) / l == (elapsed + l) / l);
    let p0 = seq.position_at(elapsed).unwrap();
    let p1 = seq.position_at(elapsed + l).unwrap();
    assert(p1.0 == p0.0 && p1.1 == p0.1 && p1.2 == p0.2 && p1.3 == p0.3);
    assert(p1.4 == (elapsed / l + 1) % 0x1_0000_0000);
    assert(seq.previous_color(p1.0, p1.4) == seq.previous_color(p0.0, p0.4));
}

/// `has_completed` and `evaluate` agree on step-based sequences: a sequence reports
/// completion exactly when its evaluation asks for no further service. The one exception
/// is an infinite sequence whose steps all last zero time, which never reports completion
/// yet, once any time has elapsed, is evaluated at its end with no further service.
pub proof fn lemma_completion_matches_timing<D: TimeDuration, const N: usize>(
    seq: RgbSequence<D, N>,
    elapsed: int,
)
    requires
        seq.valid(),
        !seq.is_function_based_spec(),
        elapsed >= 0,
        !(seq.loop_millis() == 0 && seq.loop_count_spec() == LoopCount::Infinite),
    ensures
        seq.is_complete_at(elapsed) <==> seq.timing_at_time(elapsed) is None,
{
    lemma_position_index_in_range(seq, elapsed);
}

/// The position of a sequence that has steps always names one of them.
pub proof fn lemma_position_index_in_range<D: TimeDuration, const N: usize>(
    seq: RgbSequence<D, N>,
    elapsed: int,
)
    requires
        seq.valid(),
        !seq.is_function_based_spec(),
        elapsed >= 0,
    ensures
        seq.position_at(elapsed) matches Some(p) && 0 <= p.0 < seq.steps_spec().len(),
{
    let steps = seq.steps_spec();
    let l = seq.loop_millis();
    if l > 0 && !seq.is_complete_at(elapsed) {
        let t = elapsed % l;
        lemma_covering_step_exists(steps, t);
        let i = choose|i: int| step_covers(steps, i, t);
        lemma_step_at(steps, t, i);
    }
}

/// Completion is permanent: once a step-based sequence has completed, it stays
/// completed at every later time.
pub proof fn lemma_completion_is_permanent<D: TimeDuration, const N: usize>(
    seq: RgbSequence<D, N>,
    e1: int,
    e2: int,
)
    requires
        seq.valid(),
        e1 <= e2,
        seq.is_complete_at(e1),
    ensures
        seq.is_complete_at(e2),
{
}

/// A completed sequence shows its landing color (or, without one, its last step's color)
/// and reports no further service.
pub proof fn lemma_completed_sequence_lands<D: TimeDuration, const N: usize>(
    seq: RgbSequence<D, N>,
    elapsed: int,
)
    requires
        seq.valid(),
        !seq.is_function_based_spec(),
        seq.is_complete_at(elapsed),
    ensures
        seq.color_at_time(elapsed) == (match seq.landing_color_spec() {
            Some(c) => c,
            None => seq.steps_spec().last().color,
        }),
        seq.timing_at_time(elapsed) is None,
{
}

/// An infinite sequence with a positive loop length never completes.
pub proof fn lemma_infinite_sequence_never_completes<D: TimeDuration, const N: usize>(
    seq: RgbSequence<D, N>,
    elapsed: int,
)
    requires
        seq.valid(),
        !seq.is_function_based_spec(),
        seq.loop_count_spec() == LoopCount::Infinite,
        seq.loop_millis() > 0,
        elapsed >= 0,
    ensures
        !seq.is_complete_at(elapsed),
        seq.timing_at_time(elapsed) is Some,
{
}

/// While a sequence plays, exactly one step covers the current time within the loop,
/// and the position's times add up to that step's duration.
pub proof fn lemma_position_in_step<D: TimeDuration, const N: usize>(
    seq: RgbSequence<D, N>,
    elapsed: int,
)
    requires
        seq.valid(),
        !seq.is_function_based_spec(),
        seq.loop_millis() > 0,
        elapsed >= 0,
        !seq.is_complete_at(elapsed),
    ensures
        ({
            let (i, in_step, until, complete, _loop) = seq.position_at(elapsed).unwrap();
            &&& !complete
            &&& step_covers(seq.steps_spec(), i, elapsed % seq.loop_millis())
            &&& in_step + until == step_millis(seq.steps_spec(), i)
            &&& 0 <= in_step < step_millis(seq.steps_spec(), i)
        }),
{
    let steps = seq.steps_spec();
    let l = seq.loop_millis();
    let t = elapsed % l;
    lemma_covering_step_exists(steps, t);
    let i = choose|i: int| step_covers(steps, i, t);
    lemma_step_at(steps, t, i);
}

/// Every time within one loop is covered by some step.
pub proof fn lemma_covering_step_exists<D: TimeDuration>(steps: Seq<SequenceStep<D>>, t: int)
    requires
        0 <= t < total_millis(steps),
    ensures
        exists|i: int| step_covers(steps, i, t),
    decreases steps.len(),
{
    let n = steps.len() as int;
    if n > 0 {
        if t >= prefix_millis(steps, n - 1) {
            assert(step_covers(steps, n - 1, t));
        } else {
            let init = steps.drop_last();
            lemma_prefix_drop_last(steps, n - 1);
            lemma_covering_step_exists(init, t);
            let i = choose|i: int| step_covers(init, i, t);
            lemma_prefix_drop_last(steps, i);
            lemma_prefix_drop_last(steps, i + 1);
            assert(step_covers(steps, i, t));
        }
    }
}

/// Dropping the last step leaves the prefix sums of the remaining steps unchanged.
proof fn lemma_prefix_drop_last<D: TimeDuration>(steps: Seq<SequenceStep<D>>, k: int)
    requires
        0 <= k < steps.len(),
    ensures
        prefix_millis(steps.drop_last(), k) == prefix_millis(steps, k),
    decreases k,
{
    if k > 0 {
        lemma_prefix_drop_last(steps, k - 1);
    }
}

/// A `Step` transition shows its target color for its whole duration and asks to be
/// serviced again when it ends.
pub proof fn lemma_step_transition_holds<D: TimeDuration, const N: usize>(
    seq: RgbSequence<D, N>,
    elapsed: int,
)
    requires
        seq.valid(),
        !seq.is_function_based_spec(),
        elapsed >= 0,
        !seq.position_at(elapsed).unwrap().3,
        seq.steps_spec()[seq.position_at(elapsed).unwrap().0].transition == TransitionStyle::Step,
    ensures
        ({
            let p = seq.position_at(elapsed).unwrap();
            &&& seq.color_at_time(elapsed) == seq.steps_spec()[p.0].color
            &&& seq.timing_at_time(elapsed) == Some(p.2)
        }),
{
}

/// An interpolating step starts exactly on the color it interpolates from, asks for
/// continuous service, and never moves any channel outside the range between that color
/// and its target.
pub proof fn lemma_interpolation_bounds<D: TimeDuration, const N: usize>(
    seq: RgbSequence<D, N>,
    elapsed: int,
)
    requires
        seq.valid(),
        !seq.is_function_based_spec(),
        elapsed >= 0,
        !seq.position_at(elapsed).unwrap().3,
        seq.steps_spec()[seq.position_at(elapsed).unwrap().0].transition.interpolates(),
    ensures
        ({
            let p = seq.position_at(elapsed).unwrap();
            let from = seq.previous_color(p.0, p.4);
            let to = seq.steps_spec()[p.0].color;
            let c = seq.color_at_time(elapsed);
            &&& seq.timing_at_time(elapsed) == Some(0int)
            &&& p.1 == 0 ==> c == from
            &&& channel_between(from.r, to.r, c.r)
            &&& channel_between(from.g, to.g, c.g)
            &&& channel_between(from.b, to.b, c.b)
        }),
{
    lemma_position_index_in_range(seq, elapsed);
    let p = seq.position_at(elapsed).unwrap();
    let step = seq.steps_spec()[p.0];
    let from = seq.previous_color(p.0, p.4);
    assert(!zero_duration_interpolating(seq.steps_spec()[p.0]));
    if seq.loop_millis() > 0 {
        lemma_position_in_step(seq, elapsed);
    }
    if step.duration.millis() != 0 {
        let progress = progress_spec(p.1 as u64, step.duration.millis());
        lemma_progress_bounds(p.1 as u64, step.duration.millis());
        lemma_ease_bounds(progress, step.transition);
        let eased = ease_spec(progress, step.transition);
        lemma_lerp_endpoints(from, step.color, eased as u16);
        crate::fixed::lemma_lerp_channel_in_range(from.r as int, step.color.r as int, eased);
        crate::fixed::lemma_lerp_channel_in_range(from.g as int, step.color.g as int, eased);
        crate::fixed::lemma_lerp_channel_in_range(from.b as int, step.color.b as int, eased);
    }
}

/// Within one pass through an interpolating step, every channel moves monotonically from
/// the color the step starts from toward its target as time advances: fades never
/// reverse.
pub proof fn lemma_interpolation_monotone<D: TimeDuration, const N: usize>(
    seq: RgbSequence<D, N>,
    e1: int,
    e2: int,
)
    requires
        seq.valid(),
        !seq.is_function_based_spec(),
        seq.loop_millis() > 0,
        0 <= e1 <= e2,
        e1 / seq.loop_millis() == e2 / seq.loop_millis(),
        !seq.is_complete_at(e2),
        seq.position_at(e1).unwrap().0 == seq.position_at(e2).unwrap().0,
        seq.steps_spec()[seq.position_at(e1).unwrap().0].transition.interpolates(),
    ensures
        ({
            let p = seq.position_at(e1).unwrap();
            let from = seq.previous_color(p.0, p.4);
            let to = seq.steps_spec()[p.0].color;
            let c1 = seq.color_at_time(e1);
            let c2 = seq.color_at_time(e2);
            &&& channel_toward(from.r, to.r, c1.r, c2.r)
            &&& channel_toward(from.g, to.g, c1.g, c2.g)
            &&& channel_toward(from.b, to.b, c1.b, c2.b)
        }),
{
    let l = seq.loop_millis();
    let steps = seq.steps_spec();
    assert(!seq.is_complete_at(e1)) by {
        if seq.is_complete_at(e1) {
            lemma_completion_is_permanent(seq, e1, e2);
        }
    }
    lemma_position_in_step(seq, e1);
    lemma_position_in_step(seq, e2);
    let p1 = seq.position_at(e1).unwrap();
    let p2 = seq.position_at(e2).unwrap();
    assert(e1 % l <= e2 % l) by {
        vstd::arithmetic::div_mod::lemma_fundamental_div_mod(e1, l);
        vstd::arithmetic::div_mod::lemma_fundamental_div_mod(e2, l);
    }
    assert(p1.4 == p2.4);
    let step = steps[p1.0];
    assert(!zero_duration_interpolating(steps[p1.0]));
    let d = step.duration.millis();
    crate::fixed::lemma_progress_monotone(p1.1 as u64, p2.1 as u64, d);
    let g1 = progress_spec(p1.1 as u64, d);
    let g2 = progress_spec(p2.1 as u64, d);
    lemma_progress_bounds(p1.1 as u64, d);
    lemma_progress_bounds(p2.1 as u64, d);
    crate::fixed::lemma_ease_monotone(g1, g2, step.transition);
    lemma_ease_bounds(g1, step.transition);
    lemma_ease_bounds(g2, step.transition);
    let x1 = ease_spec(g1, step.transition);
    let x2 = ease_spec(g2, step.transition);
    let from = seq.previous_color(p1.0, p1.4);
    lemma_lerp_endpoints(from, step.color, x1 as u16);
    lemma_lerp_endpoints(from, step.color, x2 as u16);
    lemma_channel_toward(from.r, step.color.r, x1, x2);
    lemma_channel_toward(from.g, step.color.g, x1, x2);
    lemma_channel_toward(from.b, step.color.b, x1, x2);
}

/// Whether moving from `c1` to `c2` goes toward `to` when starting from `from`.
pub open spec fn channel_toward(from: u16, to: u16, c1: u16, c2: u16) -> bool {
    &&& from <= to ==> c1 <= c2
    &&& to <= from ==> c2 <= c1
}

/// A channel interpolated by a larger factor is further toward its target.
proof fn lemma_channel_toward(from: u16, to: u16, x1: int, x2: int)
    requires
        0 <= x1 <= x2 <= ONE,
    ensures
        channel_toward(
            from,
            to,
            crate::fixed::lerp_channel_spec(from as int, to as int, x1) as u16,
            crate::fixed::lerp_channel_spec(from as int, to as int, x2) as u16,
        ),
{
    crate::fixed::lemma_lerp_channel_in_range(from as int, to as int, x1);
    crate::fixed::lemma_lerp_channel_in_range(from as int, to as int, x2);
    if from <= to {
        crate::fixed::lemma_lerp_channel_monotone(from as int, to as int, x1, x2);
    }
    if to <= from {
        crate::fixed::lemma_lerp_channel_monotone_down(from as int, to as int, x1, x2);
    }
}

/// Whether `c` lies between `a` and `b` (in either order).
pub open spec fn channel_between(a: u16, b: u16, c: u16) -> bool {
    (a <= c <= b) || (b <= c <= a)
}

// ---------------------------------------------------------------------------
// Builder
// ---------------------------------------------------------------------------

/// Builder for RGB sequences.
#[derive(Debug, Clone)]
#[verifier::reject_recursive_types(D)]
pub struct SequenceBuilder<D: TimeDuration, const N: usize> {
    steps: Vec<SequenceStep<D>>,
    loop_count: LoopCount,
    landing_color: Option<Rgb>,
    start_color: Option<Rgb>,
}

impl<D: TimeDuration, const N: usize> SequenceBuilder<D, N> {
    /// Steps added so far.
    pub closed spec fn steps_spec(&self) -> Seq<SequenceStep<D>> {
        self.steps@
    }

    /// Loop count set so far.
    pub closed spec fn loop_count_spec(&self) -> LoopCount {
        self.loop_count
    }

    /// Landing color set so far.
    pub closed spec fn landing_color_spec(&self) -> Option<Rgb> {
        self.landing_color
    }

    /// Start color set so far.
    pub closed spec fn start_color_spec(&self) -> Option<Rgb> {
        self.start_color
    }

    /// The builder never holds more steps than the capacity.
    pub closed spec fn valid(&self) -> bool {
        self.steps@.len() <= N
    }

    /// Creates a new sequence builder.
    pub fn new() -> (b: Self)
        ensures
            b.valid(),
            b.steps_spec() == Seq::<SequenceStep<D>>::empty(),
            b.loop_count_spec() == LoopCount::Finite(1),
            b.landing_color_spec() is None,
            b.start_color_spec() is None,
    {
        Self { steps: Vec::new(), loop_count: LoopCount::Finite(1), landing_color: None, start_color: None }
    }

    /// Adds a step to the sequence; fails with `CapacityExceeded` once `N` steps are held.
    pub fn step(self, color: Rgb, duration: D, transition: TransitionStyle) -> (r: Result<
        Self,
        SequenceError,
    >)
        requires
            self.valid(),
        ensures
            self.steps_spec().len() < N <==> r is Ok,
            r is Err ==> r->Err_0 == SequenceError::CapacityExceeded,
            r matches Ok(b) ==> {
                &&& b.valid()
                &&& b.steps_spec() == self.steps_spec().push(
                    SequenceStep { color, duration, transition },
                )
                &&& b.loop_count_spec() == self.loop_count_spec()
                &&& b.landing_color_spec() == self.landing_color_spec()
                &&& b.start_color_spec() == self.start_color_spec()
            },
    {
        if self.steps.len() >= N {
            return Err(SequenceError::CapacityExceeded);
        }
        let mut b = self;
        b.steps.push(SequenceStep::new(color, duration, transition));
        Ok(b)
    }

    /// Sets loop count (default: `Finite(1)`).
    pub fn loop_count(self, count: LoopCount) -> (b: Self)
        requires
            self.valid(),
        ensures
            b.valid(),
            b.steps_spec() == self.steps_spec(),
            b.loop_count_spec() == count,
            b.landing_color_spec() == self.landing_color_spec(),
            b.start_color_spec() == self.start_color_spec(),
    {
        let mut b = self;
        b.loop_count = count;
        b
    }

    /// Sets landing color shown after sequence completes (finite sequences only).
    pub fn landing_color(self, color: Rgb) -> (b: Self)
        requires
            self.valid(),
        ensures
            b.valid(),
            b.steps_spec() == self.steps_spec(),
            b.loop_count_spec() == self.loop_count_spec(),
            b.landing_color_spec() == Some(color),
            b.start_color_spec() == self.start_color_spec(),
    {
        let mut b = self;
        b.landing_color = Some(color);
        b
    }

    /// Sets start color for smooth entry into the first step (first loop only,
    /// interpolating transitions only).
    pub fn start_color(self, color: Rgb) -> (b: Self)
        requires
            self.valid(),
        ensures
            b.valid(),
            b.steps_spec() == self.steps_spec(),
            b.loop_count_spec() == self.loop_count_spec(),
            b.landing_color_spec() == self.landing_color_spec(),
            b.start_color_spec() == Some(color),
    {
        let mut b = self;
        b.start_color = Some(color);
        b
    }

    /// Builds and validates the sequence.
    ///
    /// Fails with the first of: `EmptySequence` (no steps), `ZeroDurationWithLinear`
    /// (a zero-duration step that interpolates), `StartColorWithStepTransition` (a start
    /// color with a first step that does not interpolate), `LandingColorWithInfiniteLoop`
    /// (a landing color on an infinite sequence). The total duration must fit in `u64`
    /// milliseconds.
    pub fn build(self) -> (r: Result<RgbSequence<D, N>, SequenceError>)
        requires
            self.valid(),
            total_millis(self.steps_spec()) <= u64::MAX,
        ensures
            build_error(
                self.steps_spec(),
                self.loop_count_spec(),
                self.start_color_spec(),
                self.landing_color_spec(),
            ) matches Some(e) ==> r == Err::<RgbSequence<D, N>, SequenceError>(e),
            build_error(
                self.steps_spec(),
                self.loop_count_spec(),
                self.start_color_spec(),
                self.landing_color_spec(),
            ) is None ==> (r matches Ok(s) && {
                &&& s.valid()
                &&& !s.is_function_based_spec()
                &&& s.steps_spec() == self.steps_spec()
                &&& s.loop_count_spec() == self.loop_count_spec()
                &&& s.landing_color_spec() == self.landing_color_spec()
                &&& s.start_color_spec() == self.start_color_spec()
                &&& s.loop_duration_spec().millis() == total_millis(self.steps_spec())
            }),
    {
        let n: usize = self.steps.len();
        if n == 0 {
            return Err(SequenceError::EmptySequence);
        }
        let mut i: usize = 0;
        let mut total: u64 = 0;
        while i < n
            invariant
                n == self.steps@.len(),
                0 <= i <= n,
                total == prefix_millis(self.steps@, i as int),
                total_millis(self.steps@) <= u64::MAX,
                forall|k: int| 0 <= k < i ==> !zero_duration_interpolating(#[trigger] self.steps@[k]),
            decreases n - i,
        {
            let step: SequenceStep<D> = self.steps[i];
            let millis: u64 = step.duration.as_millis();
            if millis == 0 && is_interpolating(step.transition) {
                assert(zero_duration_interpolating(self.steps@[i as int]));
                return Err(SequenceError::ZeroDurationWithLinear);
            }
            proof {
                lemma_prefix_monotone(self.steps@, i as int + 1, n as int);
            }
            total = total + millis;
            i = i + 1;
        }
        if self.start_color.is_some() && !is_interpolating(self.steps[0].transition) {
            return Err(SequenceError::StartColorWithStepTransition);
        }
        if self.landing_color.is_some() && is_infinite(self.loop_count) {
            return Err(SequenceError::LandingColorWithInfiniteLoop);
        }
        // The loop duration is cached here to avoid recomputing it during playback.
        let loop_duration: D = D::from_millis(total);
        Ok(
            RgbSequence {
                steps: self.steps,
                loop_count: self.loop_count,
                landing_color: self.landing_color,
                loop_duration,
                start_color: self.start_color,
                color_fn: None,
                timing_fn: None,
            },
        )
    }
}

/// Whether a transition style interpolates toward its target.
#[inline]
fn is_interpolating(transition: TransitionStyle) -> (r: bool)
    ensures
        r == transition.interpolates(),
{
    match transition {
        TransitionStyle::Step => false,
        _ => true,
    }
}

/// Whether a loop count repeats forever.
#[inline]
fn is_infinite(count: LoopCount) -> (r: bool)
    ensures
        r == (count == LoopCount::Infinite),
{
    match count {
        LoopCount::Infinite => true,
        LoopCount::Finite(_) => false,
    }
}

impl<D: TimeDuration, const N: usize> Default for SequenceBuilder<D, N> {
    /// Returns a new default sequence builder.
    fn default() -> (b: Self)
        ensures
            b.valid(),
            b.steps_spec() == Seq::<SequenceStep<D>>::empty(),
            b.loop_count_spec() == LoopCount::Finite(1),
            b.landing_color_spec() is None,
            b.start_color_spec() is None,
    {
        Self::new()
    }
}

} // verus!
