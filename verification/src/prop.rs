//! Plants: scenery that shows its frames in turn, whatever else happens.

use vstd::prelude::*;
use crate::geometry::{Point, Position};
use crate::rules::Rules;
use crate::timer::{Timer, TimerMode, TimerView};

verus! {

/// The families of plants.
#[derive(Clone, Copy, Debug, PartialEq, Eq)]
pub enum PropFamily {
    /// An alga one tile high.
    SmallAlga,
    /// An alga two tiles high.
    TallAlga,
}

impl PropFamily {
    /// How many frames a plant of this family has.
    pub open spec fn frames(self) -> nat {
        2
    }

    /// How many frames a plant of this family has.
    pub fn frame_count(self) -> (n: u32)
        ensures
            n == self.frames(),
    {
        2
    }
}

/// The mathematical value of a [`Prop`].
pub struct PropView {
    pub at: Point,
    pub family: PropFamily,
    pub frame: nat,
    pub cycle: TimerView,
}

impl PropView {
    /// The frame shown is one of the family's.
    pub open spec fn wf(self) -> bool {
        self.frame < self.family.frames()
    }

    /// The plant `elapsed` nanoseconds later: where its timer has run out, it shows
    /// its next frame, the first one after the last, and the timer starts over.
    pub open spec fn animated(self, elapsed: nat) -> PropView {
        let cycle = self.cycle.ticked(elapsed);
        if cycle.finished() {
            PropView {
                frame: (self.frame + 1) % (self.family.frames() as int) as nat,
                cycle: cycle.restarted(),
                ..self
            }
        } else {
            PropView { cycle, ..self }
        }
    }
}

/// A plant.
#[derive(Clone, Copy, Debug, PartialEq, Eq)]
pub struct Prop {
    pub position: Position,
    pub family: PropFamily,
    /// The frame shown, counted from 0.
    pub frame: u32,
    pub cycle: Timer,
}

impl View for Prop {
    type V = PropView;

    open spec fn view(&self) -> PropView {
        PropView {
            at: self.position@,
            family: self.family,
            frame: self.frame as nat,
            cycle: self.cycle@,
        }
    }
}

impl Prop {
    /// A plant at `position` that shows its first frame for as long as the rules
    /// say.
    pub fn new(position: Position, family: PropFamily, rules: &Rules) -> (prop: Prop)
        ensures
            prop@ == (PropView {
                at: position@,
                family,
                frame: 0,
                cycle: TimerView { duration: rules.prop_period as nat, elapsed: 0, mode: TimerMode::Once },
            }),
            prop@.wf(),
    {
        Prop { position, family, frame: 0, cycle: Timer::new(rules.prop_period, TimerMode::Once) }
    }

    /// Whether the frame shown is one of the family's.
    pub fn is_valid(&self) -> (ok: bool)
        ensures
            ok == self@.wf(),
    {
        self.frame < self.family.frame_count()
    }

    /// Advances the plant by `elapsed` nanoseconds.
    pub fn animate(&mut self, elapsed: u64)
        ensures
            final(self)@ == old(self)@.animated(elapsed as nat),
            old(self)@.wf() ==> final(self)@.wf(),
    {
        let mut cycle: Timer = self.cycle;
        cycle.tick(elapsed);
        if cycle.is_finished() {
            cycle.reset();
            let count: u64 = self.family.frame_count() as u64;
            let next: u64 = (self.frame as u64 + 1) % count;
            self.frame = next as u32;
        }
        self.cycle = cycle;
    }
}

/// A plant never moves, and after a full run through its frames it shows the
/// frame that it started from.
pub proof fn plants_stay_and_cycle(prop: PropView, a: nat, b: nat)
    requires
        prop.wf(),
        prop.cycle.ticked(a).finished(),
        prop.animated(a).cycle.ticked(b).finished(),
    ensures
        prop.animated(a).at == prop.at,
        prop.animated(a).frame != prop.frame,
        prop.animated(a).animated(b).frame == prop.frame,
{
}

} // verus!
