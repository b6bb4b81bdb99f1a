//! The repeating countdown that paces the arrival of new cones.
//!
//! Time is counted in whole nanoseconds. The timer accumulates the length of
//! each frame; a frame that brings the accumulated time to the period or
//! beyond completes it. The timer then reports that it has just finished, for
//! that one frame, and keeps only what is left of the accumulated time after
//! all whole periods are taken out. A frame that spans several periods thus
//! completes the timer once, not once per period.

use vstd::prelude::*;

verus! {

/// The period of the spawn timer: two seconds.
pub const SPAWN_PERIOD_NANOS: u64 = 2_000_000_000;

/// What a [`SpawnTimer`] stands for.
pub struct SpawnTimerView {
    /// Nanoseconds accumulated since the last completion.
    pub elapsed: nat,
    /// Whether the latest tick completed the timer.
    pub just_finished: bool,
}

impl SpawnTimerView {
    /// A timer that has not run yet.
    pub open spec fn fresh() -> SpawnTimerView {
        SpawnTimerView { elapsed: 0, just_finished: false }
    }

    /// The accumulated time stays below the period.
    pub open spec fn wf(self) -> bool {
        self.elapsed < SPAWN_PERIOD_NANOS
    }

    /// Whether a frame of `delta` nanoseconds completes the timer.
    pub open spec fn finishes_within(self, delta: nat) -> bool {
        self.elapsed + delta >= SPAWN_PERIOD_NANOS
    }

    /// The timer after a frame of `delta` nanoseconds.
    pub open spec fn tick(self, delta: nat) -> SpawnTimerView {
        SpawnTimerView {
            elapsed: (self.elapsed + delta) % (SPAWN_PERIOD_NANOS as nat),
            just_finished: self.finishes_within(delta),
        }
    }

    /// The timer after frames of the lengths `deltas`, in that order.
    pub open spec fn after(self, deltas: Seq<nat>) -> SpawnTimerView
        decreases deltas.len(),
    {
        if deltas.len() == 0 {
            self
        } else {
            self.after(deltas.drop_last()).tick(deltas.last())
        }
    }

    /// How many of the frames of lengths `deltas` complete the timer.
    pub open spec fn completions(self, deltas: Seq<nat>) -> nat
        decreases deltas.len(),
    {
        if deltas.len() == 0 {
            0
        } else {
            let earlier = deltas.drop_last();
            self.completions(earlier) + if self.after(earlier).finishes_within(deltas.last()) {
                1nat
            } else {
                0nat
            }
        }
    }
}

/// The sum of the frame lengths `deltas`.
pub open spec fn total_time(deltas: Seq<nat>) -> nat
    decreases deltas.len(),
{
    if deltas.len() == 0 {
        0
    } else {
        total_time(deltas.drop_last()) + deltas.last()
    }
}

/// A repeating two-second countdown.
#[derive(Clone, Copy, Debug, PartialEq, Eq)]
pub struct SpawnTimer {
    elapsed_nanos: u64,
    just_finished: bool,
}

impl View for SpawnTimer {
    type V = SpawnTimerView;

    closed spec fn view(&self) -> SpawnTimerView {
        SpawnTimerView { elapsed: self.elapsed_nanos as nat, just_finished: self.just_finished }
    }
}

impl SpawnTimer {
    #[verifier::type_invariant]
    spec fn below_period(self) -> bool {
        self.elapsed_nanos < SPAWN_PERIOD_NANOS
    }

    /// A timer that has not run yet.
    pub fn new() -> (timer: SpawnTimer)
        ensures
            timer@ == SpawnTimerView::fresh(),
    {
        SpawnTimer { elapsed_nanos: 0, just_finished: false }
    }

    /// Advances the timer by a frame of `delta_nanos` nanoseconds.
    pub fn tick(&mut self, delta_nanos: u64)
        ensures
            final(self)@ == old(self)@.tick(delta_nanos as nat),
            final(self)@.wf(),
    {
        proof {
            use_type_invariant(&*self);
        }
        let remaining: u64 = SPAWN_PERIOD_NANOS - self.elapsed_nanos;
        if delta_nanos >= remaining {
            let beyond: u64 = delta_nanos - remaining;
            assert(self.elapsed_nanos + delta_nanos == beyond + SPAWN_PERIOD_NANOS);
            *self = SpawnTimer { elapsed_nanos: beyond % SPAWN_PERIOD_NANOS, just_finished: true };
        } else {
            *self = SpawnTimer {
                elapsed_nanos: self.elapsed_nanos + delta_nanos,
                just_finished: false,
            };
        }
    }

    /// Whether the latest tick completed the timer.
    pub fn just_finished(&self) -> (finished: bool)
        ensures
            finished == self@.just_finished,
    {
        self.just_finished
    }

    /// Nanoseconds accumulated since the last completion.
    pub fn elapsed_nanos(&self) -> (elapsed: u64)
        ensures
            elapsed == self@.elapsed,
            self@.wf(),
    {
        proof {
            use_type_invariant(self);
        }
        self.elapsed_nanos
    }

    /// Whether a frame of `delta_nanos` nanoseconds would complete the timer.
    pub fn finishes_within(&self, delta_nanos: u64) -> (finishes: bool)
        ensures
            finishes == self@.finishes_within(delta_nanos as nat),
    {
        proof {
            use_type_invariant(self);
        }
        delta_nanos >= SPAWN_PERIOD_NANOS - self.elapsed_nanos
    }
}

/// However the frames are cut, the accumulated time stays below the period.
pub proof fn lemma_after_wf(timer: SpawnTimerView, deltas: Seq<nat>)
    requires
        timer.wf(),
    ensures
        timer.after(deltas).wf(),
    decreases deltas.len(),
{
    if deltas.len() > 0 {
        lemma_after_wf(timer, deltas.drop_last());
    }
}

/// The timer completes at most once for every full period of accumulated
/// time: the periods completed, together with what the timer still holds,
/// never exceed the time that was fed to it.
pub proof fn lemma_completions_bounded(timer: SpawnTimerView, deltas: Seq<nat>)
    requires
        timer.wf(),
    ensures
        timer.completions(deltas) * SPAWN_PERIOD_NANOS + timer.after(deltas).elapsed
            <= timer.elapsed + total_time(deltas),
    decreases deltas.len(),
{
    if deltas.len() > 0 {
        let earlier = deltas.drop_last();
        lemma_completions_bounded(timer, earlier);
        lemma_after_wf(timer, earlier);
    }
}

/// Where no single frame is longer than the period, no time is lost: the
/// periods completed and what the timer still holds add up to the time fed
/// to it.
pub proof fn lemma_completions_exact(timer: SpawnTimerView, deltas: Seq<nat>)
    requires
        timer.wf(),
        forall|i: int| 0 <= i < deltas.len() ==> deltas[i] <= SPAWN_PERIOD_NANOS,
    ensures
        timer.completions(deltas) * SPAWN_PERIOD_NANOS + timer.after(deltas).elapsed
            == timer.elapsed + total_time(deltas),
    decreases deltas.len(),
{
    if deltas.len() > 0 {
        let earlier = deltas.drop_last();
        lemma_completions_exact(timer, earlier);
        lemma_after_wf(timer, earlier);
    }
}

/// No frame is longer than the time of all frames together.
pub proof fn lemma_total_time_bounds_each(deltas: Seq<nat>, i: int)
    requires
        0 <= i < deltas.len(),
    ensures
        deltas[i] <= total_time(deltas),
    decreases deltas.len(),
{
    if i < deltas.len() - 1 {
        lemma_total_time_bounds_each(deltas.drop_last(), i);
    }
}

/// Frames that add up to exactly one period, fed to a timer that has not run
/// yet, complete it exactly once and leave it empty.
pub proof fn lemma_one_period_completes_once(deltas: Seq<nat>)
    requires
        total_time(deltas) == SPAWN_PERIOD_NANOS,
    ensures
        SpawnTimerView::fresh().completions(deltas) == 1,
        SpawnTimerView::fresh().after(deltas).elapsed == 0,
{
    let fresh = SpawnTimerView::fresh();
    assert forall|i: int| 0 <= i < deltas.len() implies deltas[i] <= SPAWN_PERIOD_NANOS by {
        lemma_total_time_bounds_each(deltas, i);
    }
    lemma_completions_exact(fresh, deltas);
    lemma_after_wf(fresh, deltas);
    let (n, left) = (fresh.completions(deltas), fresh.after(deltas).elapsed);
    assert(n == 1 && left == 0) by (nonlinear_arith)
        requires
            n * 2_000_000_000 + left == 2_000_000_000,
            left < 2_000_000_000,
    ;
}

/// One frame completes the timer at most once, however long the frame: a
/// frame of two periods or more still counts as one completion.
pub proof fn lemma_one_frame_completes_at_most_once(timer: SpawnTimerView, delta: nat)
    ensures
        timer.completions(seq![delta]) == if timer.finishes_within(delta) {
            1nat
        } else {
            0nat
        },
{
    let frames = seq![delta];
    assert(frames.drop_last() =~= Seq::<nat>::empty());
    assert(timer.after(frames.drop_last()) == timer);
    assert(timer.completions(frames.drop_last()) == 0);
}

} // verus!
