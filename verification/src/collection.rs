//! Coordinated control of several sequencers, one per LED.
use vstd::prelude::*;

use crate::color::{Rgb, black_spec};
use crate::command::SequencerAction;
use crate::sequencer::{
    timing_hint, RgbLed, RgbSequencer, SequencerError, SequencerState, ServiceTiming,
    DEFAULT_COLOR_EPSILON, FULL_BRIGHTNESS,
};
use crate::text::{decimal, decimal_string, join3};
use vstd::string::StringExecFns;
use crate::time::{TimeDuration, TimeInstant, TimeSource};

verus! {

/// An identifier for an LED within a sequencer collection.
#[derive(Debug, Clone, Copy, PartialEq, Eq, Hash, Structural)]
pub struct LedId(pub usize);

impl From<usize> for LedId {
    fn from(id: usize) -> (r: Self) {
        LedId(id)
    }
}

impl vstd::std_specs::convert::FromSpecImpl<usize> for LedId {
    open spec fn obeys_from_spec() -> bool {
        true
    }

    open spec fn from_spec(id: usize) -> Self {
        LedId(id)
    }
}

impl From<LedId> for usize {
    fn from(id: LedId) -> (r: Self) {
        id.0
    }
}

impl vstd::std_specs::convert::FromSpecImpl<LedId> for usize {
    open spec fn obeys_from_spec() -> bool {
        true
    }

    open spec fn from_spec(id: LedId) -> Self {
        id.0
    }
}

/// Errors that can occur during collection operations.
#[derive(Debug, Clone, Copy, PartialEq, Eq)]
pub enum CollectionError {
    /// The specified LED ID does not exist in the collection.
    InvalidLedId(LedId),
    /// Attempted to add a sequencer with an ID that already exists.
    DuplicateLedId(LedId),
    /// The collection is full and cannot accept more sequencers.
    CollectionFull,
    /// The LED ID exceeds the collection's capacity.
    LedIdOutOfBounds {
        /// The rejected identifier.
        id: LedId,
        /// The collection's capacity.
        capacity: usize,
    },
    /// A sequencer operation failed.
    SequencerError(SequencerError),
}

impl CollectionError {
    /// The human-readable description of the error.
    pub open spec fn message_spec(self) -> Seq<char> {
        match self {
            CollectionError::InvalidLedId(id) => "LED ID "@ + decimal(id.0 as nat)
                + " does not exist in collection"@,
            CollectionError::DuplicateLedId(id) => "LED ID "@ + decimal(id.0 as nat)
                + " already exists in collection"@,
            CollectionError::CollectionFull => "collection is full, cannot add more sequencers"@,
            CollectionError::LedIdOutOfBounds { id, capacity } => "LED ID "@ + decimal(id.0 as nat)
                + " exceeds collection capacity of "@ + decimal(capacity as nat),
            CollectionError::SequencerError(err) => "sequencer error: "@ + err.message_spec(),
        }
    }

    /// Human-readable description of the error.
    pub fn message(&self) -> (r: String)
        ensures
            r@ == self.message_spec(),
    {
        match self {
            CollectionError::InvalidLedId(id) => {
                let digits = decimal_string(id.0);
                join3("LED ID ", digits.as_str(), " does not exist in collection")
            },
            CollectionError::DuplicateLedId(id) => {
                let digits = decimal_string(id.0);
                join3("LED ID ", digits.as_str(), " already exists in collection")
            },
            CollectionError::CollectionFull => {
                "collection is full, cannot add more sequencers".to_owned()
            },
            CollectionError::LedIdOutOfBounds { id, capacity } => {
                let digits = decimal_string(id.0);
                let mut s = join3("LED ID ", digits.as_str(), " exceeds collection capacity of ");
                let cap = decimal_string(*capacity);
                s.append(cap.as_str());
                s
            },
            CollectionError::SequencerError(err) => {
                let inner = err.message();
                let mut s = "sequencer error: ".to_owned();
                s.append(inner.as_str());
                s
            },
        }
    }
}

impl From<SequencerError> for CollectionError {
    fn from(err: SequencerError) -> (r: Self) {
        CollectionError::SequencerError(err)
    }
}

impl vstd::std_specs::convert::FromSpecImpl<SequencerError> for CollectionError {
    open spec fn obeys_from_spec() -> bool {
        true
    }

    open spec fn from_spec(err: SequencerError) -> Self {
        CollectionError::SequencerError(err)
    }
}

/// Combines timing hints: zero if any hint is zero, else the smallest hint, else none.
pub open spec fn combine_hints(hints: Seq<Option<int>>) -> Option<int>
    decreases hints.len(),
{
    if hints.len() == 0 {
        None
    } else {
        let rest = combine_hints(hints.drop_last());
        match (hints.last(), rest) {
            (None, r) => r,
            (Some(h), None) => Some(h),
            (Some(h), Some(r)) => Some(if h == 0 || r == 0 {
                0
            } else if h < r {
                h
            } else {
                r
            }),
        }
    }
}

/// Aggregated timing is the smallest hint present: zero as soon as any sequencer animates
/// continuously, otherwise the shortest delay, and nothing when no sequencer needs
/// servicing.
pub proof fn lemma_combine_hints_is_minimum(hints: Seq<Option<int>>)
    requires
        forall|i: int| 0 <= i < hints.len() ==> (#[trigger] hints[i] matches Some(h) ==> h >= 0),
    ensures
        combine_hints(hints) is None <==> forall|i: int| 0 <= i < hints.len() ==> #[trigger] hints[i] is None,
        combine_hints(hints) matches Some(m) ==> {
            &&& exists|i: int| 0 <= i < hints.len() && #[trigger] hints[i] == Some(m)
            &&& forall|i: int| 0 <= i < hints.len() ==> (#[trigger] hints[i] matches Some(h) ==> m <= h)
        },
    decreases hints.len(),
{
    if hints.len() > 0 {
        let init = hints.drop_last();
        assert forall|i: int| 0 <= i < init.len() implies (#[trigger] init[i] matches Some(h) ==> h >= 0) by {
            assert(init[i] == hints[i]);
        }
        lemma_combine_hints_is_minimum(init);
        let n = hints.len() - 1;
        match combine_hints(init) {
            None => {
                assert forall|i: int| 0 <= i < n implies #[trigger] hints[i] is None by {
                    assert(init[i] == hints[i]);
                }
            },
            Some(r) => {
                let j = choose|i: int| 0 <= i < init.len() && #[trigger] init[i] == Some(r);
                assert(hints[j] == Some(r));
                assert forall|i: int| 0 <= i < n implies (#[trigger] hints[i] matches Some(h) ==> r <= h) by {
                    assert(init[i] == hints[i]);
                }
            },
        }
    }
}

/// Manages a collection of RGB sequencers for coordinated multi-LED control.
///
/// Routes commands to individual sequencers by [`LedId`] and services them all at once,
/// aggregating their timing hints.
#[verifier::reject_recursive_types(I)]
pub struct SequencerCollection<
    't,
    I: TimeInstant,
    L: RgbLed,
    T: TimeSource<I>,
    const N: usize,
    const MAX_LEDS: usize,
> {
    sequencers: Vec<Option<RgbSequencer<'t, I, L, T, N>>>,
    time_source: &'t T,
}

impl<'t, I: TimeInstant, L: RgbLed, T: TimeSource<I>, const N: usize, const MAX_LEDS: usize>
    SequencerCollection<'t, I, L, T, N, MAX_LEDS> {
    /// The sequencer slots, one per LED id.
    pub closed spec fn slots(&self) -> Seq<Option<RgbSequencer<'t, I, L, T, N>>> {
        self.sequencers@
    }

    /// One slot per id below the capacity, each occupied slot a valid sequencer.
    pub open spec fn valid(&self) -> bool {
        &&& self.slots().len() == MAX_LEDS
        &&& forall|i: int|
            0 <= i < MAX_LEDS ==> (#[trigger] self.slots()[i] matches Some(s) ==> s.valid())
    }

    /// Whether `id` names an occupied slot.
    pub open spec fn has(&self, id: LedId) -> bool {
        id.0 < MAX_LEDS && self.slots()[id.0 as int] is Some
    }

    /// Number of occupied slots among the first `k`.
    pub open spec fn count_occupied(slots: Seq<Option<RgbSequencer<'t, I, L, T, N>>>, k: int) -> int
        decreases k,
    {
        if k <= 0 {
            0
        } else {
            Self::count_occupied(slots, k - 1) + if slots[k - 1] is Some {
                1int
            } else {
                0int
            }
        }
    }

    /// Creates a new empty sequencer collection.
    pub fn new(time_source: &'t T) -> (c: Self)
        ensures
            c.valid(),
            forall|i: int| 0 <= i < MAX_LEDS ==> #[trigger] c.slots()[i] is None,
    {
        let mut sequencers: Vec<Option<RgbSequencer<'t, I, L, T, N>>> = Vec::new();
        let mut i: usize = 0;
        while i < MAX_LEDS
            invariant
                0 <= i <= MAX_LEDS,
                sequencers@.len() == i,
                forall|j: int| 0 <= j < i ==> #[trigger] sequencers@[j] is None,
            decreases MAX_LEDS - i,
        {
            sequencers.push(None);
            i = i + 1;
        }
        Self { sequencers, time_source }
    }

    /// Adds a sequencer for `led` under the given id.
    ///
    /// Fails with `LedIdOutOfBounds` if the id is not below the capacity and with
    /// `DuplicateLedId` if the slot is taken; otherwise the slot holds a fresh sequencer
    /// with the LED off.
    pub fn add_sequencer(&mut self, id: LedId, led: L) -> (r: Result<(), CollectionError>)
        requires
            old(self).valid(),
        ensures
            final(self).valid(),
            id.0 >= MAX_LEDS ==> r == Err::<(), CollectionError>(
                CollectionError::LedIdOutOfBounds { id, capacity: MAX_LEDS },
            ) && final(self).slots() == old(self).slots(),
            id.0 < MAX_LEDS && old(self).has(id) ==> r == Err::<(), CollectionError>(
                CollectionError::DuplicateLedId(id),
            ) && final(self).slots() == old(self).slots(),
            id.0 < MAX_LEDS && !old(self).has(id) ==> {
                &&& r is Ok
                &&& final(self).slots() == old(self).slots().update(
                    id.0 as int,
                    final(self).slots()[id.0 as int],
                )
                &&& Self::count_occupied(final(self).slots(), MAX_LEDS as int)
                    == Self::count_occupied(old(self).slots(), MAX_LEDS as int) + 1
                &&& final(self).slots()[id.0 as int] matches Some(s) && {
                    &&& s.state_spec() == SequencerState::Idle
                    &&& s.sequence_spec() is None
                    &&& s.current_color_spec() == black_spec()
                    &&& s.led_writes() == seq![black_spec()]
                    &&& s.color_epsilon_spec() == DEFAULT_COLOR_EPSILON
                    &&& s.brightness_spec() == FULL_BRIGHTNESS
                }
            },
    {
        let idx: usize = id.0;
        if idx >= MAX_LEDS {
            return Err(CollectionError::LedIdOutOfBounds { id, capacity: MAX_LEDS });
        }
        if self.sequencers[idx].is_some() {
            return Err(CollectionError::DuplicateLedId(id));
        }
        let sequencer = RgbSequencer::new(led, self.time_source);
        self.sequencers.set(idx, Some(sequencer));
        proof {
            Self::lemma_count_update(old(self).slots(), idx as int, Some(sequencer), MAX_LEDS as int);
        }
        Ok(())
    }

    /// Routes an action to the sequencer with the given id.
    ///
    /// Returns the sequencer's timing as a duration: zero for continuous animation, the
    /// delay for a static hold, `None` when there is nothing to wait for.
    pub fn handle_command(&mut self, id: LedId, action: SequencerAction<I::Duration, N>) -> (r:
        Result<Option<I::Duration>, CollectionError>)
        requires
            old(self).valid(),
            action matches SequencerAction::Load(s) ==> s.valid(),
        ensures
            final(self).valid(),
            !old(self).has(id) ==> r == Err::<Option<I::Duration>, CollectionError>(
                CollectionError::InvalidLedId(id),
            ) && final(self).slots() == old(self).slots(),
            old(self).has(id) ==> {
                &&& final(self).slots() == old(self).slots().update(
                    id.0 as int,
                    final(self).slots()[id.0 as int],
                )
                &&& final(self).slots()[id.0 as int] is Some
                &&& Self::count_occupied(final(self).slots(), MAX_LEDS as int)
                    == Self::count_occupied(old(self).slots(), MAX_LEDS as int)
                &&& exists|t: Result<ServiceTiming<I::Duration>, SequencerError>|
                    #[trigger] RgbSequencer::handles_to(
                        &old(self).slots()[id.0 as int].unwrap(),
                        action,
                        &final(self).slots()[id.0 as int].unwrap(),
                        t,
                    ) && match t {
                        Ok(ServiceTiming::Continuous) => r matches Ok(Some(d)) && d.millis() == 0,
                        Ok(ServiceTiming::Delay(d)) => r == Ok::<
                            Option<I::Duration>,
                            CollectionError,
                        >(Some(d)),
                        Ok(ServiceTiming::Complete) => r == Ok::<
                            Option<I::Duration>,
                            CollectionError,
                        >(None),
                        Err(e) => r == Err::<Option<I::Duration>, CollectionError>(
                            CollectionError::SequencerError(e),
                        ),
                    }
            },
    {
        let idx: usize = id.0;
        if idx >= MAX_LEDS {
            return Err(CollectionError::InvalidLedId(id));
        }
        let mut slot: Option<RgbSequencer<'t, I, L, T, N>> = None;
        std::mem::swap(&mut slot, &mut self.sequencers[idx]);
        match slot {
            None => {
                self.sequencers.set(idx, None);
                Err(CollectionError::InvalidLedId(id))
            },
            Some(mut sequencer) => {
                let ghost pre = sequencer;
                let ghost a = action;
                let t = sequencer.handle_action(action);
                assert(RgbSequencer::handles_to(&pre, a, &sequencer, t));
                self.sequencers.set(idx, Some(sequencer));
                let r: Result<Option<I::Duration>, CollectionError> = match t {
                    Ok(ServiceTiming::Continuous) => Ok(Some(I::Duration::from_millis(0))),
                    Ok(ServiceTiming::Delay(d)) => Ok(Some(d)),
                    Ok(ServiceTiming::Complete) => Ok(None),
                    Err(e) => Err(CollectionError::SequencerError(e)),
                };
                assert(old(self).slots()[id.0 as int].unwrap() == pre);
                assert(self.slots()[id.0 as int].unwrap() == sequencer);
                assert(self.slots() =~= old(self).slots().update(id.0 as int, self.slots()[id.0 as int]));
                proof {
                    Self::lemma_count_update(
                        old(self).slots(),
                        idx as int,
                        self.slots()[idx as int],
                        MAX_LEDS as int,
                    );
                }
                r
            },
        }
    }

    /// What servicing does to one slot: an empty or non-running slot is left alone and
    /// contributes no hint; a running sequencer is serviced once at some clock reading and
    /// contributes the hint of its timing.
    pub open spec fn slot_serviced(
        pre: Option<RgbSequencer<'t, I, L, T, N>>,
        post: Option<RgbSequencer<'t, I, L, T, N>>,
        hint: Option<int>,
    ) -> bool {
        match pre {
            None => post is None && hint is None,
            Some(s) => if s.state_spec() != SequencerState::Running {
                post == pre && hint is None
            } else {
                &&& post is Some
                &&& exists|now: I, t: ServiceTiming<I::Duration>|
                    #[trigger] RgbSequencer::services_to(
                        &s,
                        now,
                        &post.unwrap(),
                        Ok::<ServiceTiming<I::Duration>, SequencerError>(t),
                    ) && hint == timing_hint(t)
            },
        }
    }

    /// Services all running sequencers and returns the optimal sleep duration.
    ///
    /// Every running sequencer is serviced once, updating its LED as needed. The result is
    /// zero if any of them animates continuously, else the shortest delay among them, else
    /// `None` when all are complete, idle or absent. Servicing a running sequencer cannot
    /// fail, so neither can this.
    pub fn service_all(&mut self) -> (r: Result<Option<I::Duration>, CollectionError>)
        requires
            old(self).valid(),
        ensures
            final(self).valid(),
            r is Ok,
            exists|hints: Seq<Option<int>>|
                {
                    &&& hints.len() == MAX_LEDS
                    &&& forall|i: int|
                        0 <= i < MAX_LEDS ==> Self::slot_serviced(
                            old(self).slots()[i],
                            final(self).slots()[i],
                            #[trigger] hints[i],
                        )
                    &&& match r {
                        Ok(Some(d)) => combine_hints(hints) == Some(d.millis() as int),
                        _ => combine_hints(hints) is None,
                    }
                },
    {
        let mut min_duration: Option<I::Duration> = None;
        let mut has_zero: bool = false;
        let ghost mut hints: Seq<Option<int>> = Seq::empty();
        let mut idx: usize = 0;
        while idx < MAX_LEDS
            invariant
                0 <= idx <= MAX_LEDS,
                self.valid(),
                self.sequencers@.len() == MAX_LEDS,
                hints.len() == idx,
                forall|i: int|
                    idx <= i < MAX_LEDS ==> #[trigger] self.sequencers@[i] == old(self).sequencers@[i],
                forall|i: int|
                    0 <= i < idx ==> Self::slot_serviced(
                        old(self).sequencers@[i],
                        self.sequencers@[i],
                        #[trigger] hints[i],
                    ),
                has_zero ==> combine_hints(hints) == Some(0int),
                !has_zero ==> match min_duration {
                    Some(d) => combine_hints(hints) == Some(d.millis() as int) && d.millis() > 0,
                    None => combine_hints(hints) is None,
                },
            decreases MAX_LEDS - idx,
        {
            let ghost pre_seqs = self.sequencers@;
            let mut slot: Option<RgbSequencer<'t, I, L, T, N>> = None;
            std::mem::swap(&mut slot, &mut self.sequencers[idx]);
            let ghost pre_slot = slot;
            assert(pre_slot == old(self).sequencers@[idx as int]);
            let ghost prev_hints = hints;
            match slot {
                None => {
                    self.sequencers.set(idx, None);
                    proof {
                        hints = hints.push(None);
                    }
                },
                Some(mut sequencer) => {
                    if sequencer.state() == SequencerState::Running {
                        let ghost pre = sequencer;
                        let res = sequencer.service();
                        match res {
                            Ok(timing) => {
                                let ghost hint = timing_hint(timing);
                                match timing {
                                    ServiceTiming::Continuous => {
                                        has_zero = true;
                                    },
                                    ServiceTiming::Delay(duration) => {
                                        if duration.as_millis() == 0 {
                                            has_zero = true;
                                        } else {
                                            match min_duration {
                                                None => {
                                                    min_duration = Some(duration);
                                                },
                                                Some(current_min) => {
                                                    if duration.as_millis() < current_min.as_millis() {
                                                        min_duration = Some(duration);
                                                    }
                                                },
                                            }
                                        }
                                    },
                                    ServiceTiming::Complete => {},
                                }
                                self.sequencers.set(idx, Some(sequencer));
                                proof {
                                    hints = hints.push(hint);
                                    assert(hints.drop_last() =~= prev_hints);
                                    let now_w = choose|now: I|
                                        RgbSequencer::services_to(&pre, now, &sequencer, res);
                                    assert(RgbSequencer::services_to(
                                        &pre,
                                        now_w,
                                        &self.sequencers@[idx as int].unwrap(),
                                        Ok::<ServiceTiming<I::Duration>, SequencerError>(timing),
                                    ) && hints[idx as int] == timing_hint(timing));
                                    assert(Self::slot_serviced(
                                        old(self).sequencers@[idx as int],
                                        self.sequencers@[idx as int],
                                        hints[idx as int],
                                    ));
                                }
                            },
                            Err(e) => {
                                self.sequencers.set(idx, Some(sequencer));
                                return Err(CollectionError::SequencerError(e));
                            },
                        }
                    } else {
                        self.sequencers.set(idx, Some(sequencer));
                        proof {
                            hints = hints.push(None);
                        }
                    }
                },
            }
            proof {
                assert(hints.drop_last() =~= prev_hints);
                assert forall|i: int| 0 <= i < idx + 1 implies Self::slot_serviced(
                    old(self).sequencers@[i],
                    self.sequencers@[i],
                    #[trigger] hints[i],
                ) by {
                    if i < idx {
                        assert(hints[i] == prev_hints[i]);
                        assert(self.sequencers@[i] == pre_seqs[i]);
                    }
                }
            }
            idx = idx + 1;
        }
        assert(hints.len() == MAX_LEDS);
        if has_zero {
            Ok(Some(I::Duration::from_millis(0)))
        } else {
            Ok(min_duration)
        }
    }

    /// Returns the current state of the specified sequencer.
    pub fn get_state(&self, id: LedId) -> (r: Result<SequencerState, CollectionError>)
        requires
            self.valid(),
        ensures
            !self.has(id) ==> r == Err::<SequencerState, CollectionError>(
                CollectionError::InvalidLedId(id),
            ),
            self.has(id) ==> r == Ok::<SequencerState, CollectionError>(
                self.slots()[id.0 as int].unwrap().state_spec(),
            ),
    {
        let idx: usize = id.0;
        if idx >= MAX_LEDS {
            return Err(CollectionError::InvalidLedId(id));
        }
        match &self.sequencers[idx] {
            Some(sequencer) => Ok(sequencer.state()),
            None => Err(CollectionError::InvalidLedId(id)),
        }
    }

    /// Returns the current color being displayed on the specified LED.
    pub fn get_current_color(&self, id: LedId) -> (r: Result<Rgb, CollectionError>)
        requires
            self.valid(),
        ensures
            !self.has(id) ==> r == Err::<Rgb, CollectionError>(CollectionError::InvalidLedId(id)),
            self.has(id) ==> r == Ok::<Rgb, CollectionError>(
                self.slots()[id.0 as int].unwrap().current_color_spec(),
            ),
    {
        let idx: usize = id.0;
        if idx >= MAX_LEDS {
            return Err(CollectionError::InvalidLedId(id));
        }
        match &self.sequencers[idx] {
            Some(sequencer) => Ok(sequencer.current_color()),
            None => Err(CollectionError::InvalidLedId(id)),
        }
    }

    /// Returns the number of sequencers currently in the collection.
    pub fn len(&self) -> (n: usize)
        requires
            self.valid(),
        ensures
            n == Self::count_occupied(self.slots(), MAX_LEDS as int),
    {
        let mut count: usize = 0;
        let mut i: usize = 0;
        while i < MAX_LEDS
            invariant
                0 <= i <= MAX_LEDS,
                self.sequencers@.len() == MAX_LEDS,
                count == Self::count_occupied(self.sequencers@, i as int),
                count <= i,
            decreases MAX_LEDS - i,
        {
            if self.sequencers[i].is_some() {
                count = count + 1;
            }
            i = i + 1;
        }
        count
    }

    /// Returns true if the collection contains no sequencers.
    pub fn is_empty(&self) -> (b: bool)
        requires
            self.valid(),
        ensures
            b == (Self::count_occupied(self.slots(), MAX_LEDS as int) == 0),
            b <==> forall|i: int| 0 <= i < MAX_LEDS ==> #[trigger] self.slots()[i] is None,
    {
        proof {
            Self::lemma_count_occupied(self.slots(), MAX_LEDS as int);
        }
        self.len() == 0
    }

    /// Replacing slot `i` changes the occupied count of the first `k` slots by what it
    /// adds or removes, when `i` is among them.
    pub proof fn lemma_count_update(
        slots: Seq<Option<RgbSequencer<'t, I, L, T, N>>>,
        i: int,
        v: Option<RgbSequencer<'t, I, L, T, N>>,
        k: int,
    )
        requires
            0 <= i < slots.len(),
            0 <= k <= slots.len(),
        ensures
            Self::count_occupied(slots.update(i, v), k) == Self::count_occupied(slots, k) + (
            if i < k {
                (if v is Some {
                    1int
                } else {
                    0int
                }) - (if slots[i] is Some {
                    1int
                } else {
                    0int
                })
            } else {
                0int
            }),
        decreases k,
    {
        if k > 0 {
            Self::lemma_count_update(slots, i, v, k - 1);
        }
    }

    /// The occupied count of the first `k` slots lies between zero and `k`, and is zero
    /// exactly when none of them is occupied.
    pub proof fn lemma_count_occupied(slots: Seq<Option<RgbSequencer<'t, I, L, T, N>>>, k: int)
        requires
            0 <= k <= slots.len(),
        ensures
            0 <= Self::count_occupied(slots, k) <= k,
            Self::count_occupied(slots, k) == 0 <==> forall|i: int|
                0 <= i < k ==> #[trigger] slots[i] is None,
        decreases k,
    {
        if k > 0 {
            Self::lemma_count_occupied(slots, k - 1);
            if Self::count_occupied(slots, k) == 0 {
                assert forall|i: int| 0 <= i < k implies #[trigger] slots[i] is None by {
                    if i < k - 1 {
                    }
                }
            }
        }
    }

    /// Returns true if the collection contains a sequencer with the given ID.
    pub fn contains(&self, id: LedId) -> (b: bool)
        requires
            self.valid(),
        ensures
            b == self.has(id),
    {
        let idx: usize = id.0;
        idx < MAX_LEDS && self.sequencers[idx].is_some()
    }
}

} // verus!
