//! A countdown that every timed behaviour shares: how long a fish eats, how
//! soon the player may drop the next pellet, how often a plant sways.

use vstd::prelude::*;

verus! {

/// What a timer does once its time is up.
#[derive(Clone, Copy, Debug, PartialEq, Eq)]
pub enum TimerMode {
    /// Stays finished until it is reset.
    Once,
    /// Starts over by itself with the tick that follows the one that finished it.
    Repeating,
}

/// The mathematical value of a [`Timer`]: times in nanoseconds.
pub struct TimerView {
    pub duration: nat,
    pub elapsed: nat,
    pub mode: TimerMode,
}

impl TimerView {
    /// Never more time has elapsed than the timer runs for.
    pub open spec fn wf(self) -> bool {
        self.elapsed <= self.duration
    }

    /// Time left: `max(0, duration - elapsed)`.
    pub open spec fn remaining(self) -> nat {
        if self.elapsed >= self.duration {
            0
        } else {
            (self.duration - self.elapsed) as nat
        }
    }

    pub open spec fn finished(self) -> bool {
        self.remaining() == 0
    }

    /// The elapsed time that the next tick starts from: zero for a repeating
    /// timer that has finished, the elapsed time so far otherwise.
    pub open spec fn carried(self) -> nat {
        if self.mode is Repeating && self.finished() {
            0
        } else {
            self.elapsed
        }
    }

    /// The timer after `delta` more nanoseconds: elapsed time grows by `delta`
    /// and stops at the duration.
    pub open spec fn ticked(self, delta: nat) -> TimerView {
        let total = self.carried() + delta;
        TimerView {
            elapsed: if total >= self.duration { self.duration } else { total },
            ..self
        }
    }

    /// The timer with no time elapsed.
    pub open spec fn restarted(self) -> TimerView {
        TimerView { elapsed: 0, ..self }
    }

    /// The timer after the ticks `deltas`, one after the other.
    pub open spec fn ticked_all(self, deltas: Seq<nat>) -> TimerView
        decreases deltas.len(),
    {
        if deltas.len() == 0 {
            self
        } else {
            self.ticked_all(deltas.drop_last()).ticked(deltas.last())
        }
    }
}

/// Sum of a sequence of time spans.
pub open spec fn total(deltas: Seq<nat>) -> nat
    decreases deltas.len(),
{
    if deltas.len() == 0 {
        0
    } else {
        total(deltas.drop_last()) + deltas.last()
    }
}

/// A countdown over nanoseconds.
#[derive(Clone, Copy, Debug, PartialEq, Eq)]
pub struct Timer {
    pub duration: u64,
    pub elapsed: u64,
    pub mode: TimerMode,
}

impl View for Timer {
    type V = TimerView;

    open spec fn view(&self) -> TimerView {
        TimerView { duration: self.duration as nat, elapsed: self.elapsed as nat, mode: self.mode }
    }
}

impl Timer {
    /// A timer over `duration` nanoseconds with no time elapsed.
    pub fn new(duration: u64, mode: TimerMode) -> (t: Timer)
        ensures
            t@ == (TimerView { duration: duration as nat, elapsed: 0, mode }),
            t@.wf(),
    {
        Timer { duration, elapsed: 0, mode }
    }

    /// Advances the timer by `delta` nanoseconds.
    pub fn tick(&mut self, delta: u64)
        ensures
            final(self)@ == old(self)@.ticked(delta as nat),
            final(self)@.wf(),
    {
        let done: bool = self.elapsed >= self.duration;
        let start: u64 = match self.mode {
            TimerMode::Repeating => if done { 0 } else { self.elapsed },
            TimerMode::Once => self.elapsed,
        };
        if start >= self.duration || delta >= self.duration - start {
            self.elapsed = self.duration;
        } else {
            self.elapsed = start + delta;
        }
    }

    /// Time left, in nanoseconds.
    pub fn remaining(&self) -> (left: u64)
        ensures
            left == self@.remaining(),
    {
        if self.elapsed >= self.duration {
            0
        } else {
            self.duration - self.elapsed
        }
    }

    /// Whether no time is left.
    pub fn is_finished(&self) -> (done: bool)
        ensures
            done == self@.finished(),
    {
        self.elapsed >= self.duration
    }

    /// Starts the countdown over.
    pub fn reset(&mut self)
        ensures
            final(self)@ == old(self)@.restarted(),
            final(self)@.wf(),
    {
        self.elapsed = 0;
    }
}

/// A tick never takes elapsed time away from a one-shot timer, and leaves no
/// more time on it than before.
pub proof fn tick_never_rewinds(t: TimerView, delta: nat)
    requires
        t.wf(),
        t.mode is Once,
    ensures
        t.ticked(delta).elapsed >= t.elapsed,
        t.ticked(delta).remaining() <= t.remaining(),
        t.ticked(delta).wf(),
{
}

/// Time left and time elapsed add up to the duration.
pub proof fn remaining_complements_elapsed(t: TimerView)
    requires
        t.wf(),
    ensures
        t.remaining() + t.elapsed == t.duration,
{
}

/// A finished one-shot timer stays as it is under further ticks.
pub proof fn finished_one_shot_rests(t: TimerView, delta: nat)
    requires
        t.wf(),
        t.mode is Once,
        t.finished(),
    ensures
        t.ticked(delta) == t,
{
}

/// Two ticks of a one-shot timer amount to one tick of their sum.
pub proof fn ticks_accumulate(t: TimerView, a: nat, b: nat)
    requires
        t.wf(),
        t.mode is Once,
    ensures
        t.ticked(a).ticked(b) == t.ticked(a + b),
{
}

/// A one-shot timer that was reset and then ticked any number of times has
/// counted the sum of the ticks, up to its duration: so it is finished exactly
/// when the ticks add up to the duration or more.
pub proof fn one_shot_counts_the_sum(t: TimerView, deltas: Seq<nat>)
    requires
        t.mode is Once,
    ensures
        t.restarted().ticked_all(deltas) == t.restarted().ticked(total(deltas)),
        t.restarted().ticked_all(deltas).finished() <==> total(deltas) >= t.duration,
    decreases deltas.len(),
{
    if deltas.len() > 0 {
        one_shot_counts_the_sum(t, deltas.drop_last());
    }
}

/// A repeating timer that has finished counts the next tick from zero.
pub proof fn repeating_timer_starts_over(t: TimerView, delta: nat)
    requires
        t.mode is Repeating,
        t.finished(),
    ensures
        t.ticked(delta) == t.restarted().ticked(delta),
{
}

} // verus!
