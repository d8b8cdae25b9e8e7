//! The behaviour of a fish: it roams its band from bound to bound, hurries
//! while a pellet is near, and stops to eat the pellet that touches it.

use vstd::prelude::*;
use crate::geometry::{within, Point, Position, COORD_MAX};
use crate::pellet::{PelletId, PelletView, Pellets, PelletsView};
use crate::rules::{Rules, SPEED_MAX};
use crate::timer::{Timer, TimerMode, TimerView};

verus! {

/// What a fish is doing.
#[derive(Clone, Copy, Debug, PartialEq, Eq)]
pub enum FishState {
    Idle,
    SlowLeft,
    FastLeft,
    SlowRight,
    FastRight,
    EatingLeft,
    EatingRight,
}

/// The kind of a fish. It changes nothing in how the fish behaves.
#[derive(Clone, Copy, Debug, PartialEq, Eq)]
pub enum FishVariant {
    Common,
    Rare,
}

impl FishState {
    pub open spec fn eating(self) -> bool {
        self is EatingLeft || self is EatingRight
    }

    /// The states from which the next move, if any, goes to the left.
    pub open spec fn heads_left(self) -> bool {
        self is Idle || self is SlowLeft || self is FastLeft || self is EatingLeft
    }

    /// The states from which the next move, if any, goes to the right.
    pub open spec fn heads_right(self) -> bool {
        self is SlowRight || self is FastRight || self is EatingRight
    }

    /// The state of a fish that a pellet has hit: it eats, facing the way it was
    /// heading.
    pub open spec fn fed(self) -> FishState {
        if self.heads_left() {
            FishState::EatingLeft
        } else {
            FishState::EatingRight
        }
    }

    /// The state in which a fish leaves its meal; any other state is kept.
    pub open spec fn resumed(self) -> FishState {
        match self {
            FishState::EatingLeft => FishState::SlowLeft,
            FishState::EatingRight => FishState::SlowRight,
            s => s,
        }
    }

    /// How far a fish in this state moves in one step; negative to the left.
    pub open spec fn stride(self, rules: Rules) -> int {
        match self {
            FishState::SlowLeft => -(rules.slow_speed as int),
            FishState::FastLeft => -(rules.fast_speed as int),
            FishState::SlowRight => rules.slow_speed as int,
            FishState::FastRight => rules.fast_speed as int,
            _ => 0,
        }
    }

    /// Whether a fish that has moved in this state to `x` is beyond the bound that
    /// it was heading for.
    pub open spec fn crosses(self, x: int, rules: Rules) -> bool {
        match self {
            FishState::SlowLeft | FishState::FastLeft => x < rules.left,
            FishState::SlowRight | FishState::FastRight => x > rules.right,
            _ => false,
        }
    }

    /// The state after a step without a hit: an idle fish sets off to the left, a
    /// moving fish turns round where it has crossed its bound and otherwise goes
    /// on, fast if alerted and slowly if not; an eating fish goes on eating.
    pub open spec fn next(self, alert: bool, crossed: bool) -> FishState {
        match self {
            FishState::Idle => FishState::SlowLeft,
            FishState::SlowLeft | FishState::FastLeft => if crossed {
                FishState::SlowRight
            } else if alert {
                FishState::FastLeft
            } else {
                FishState::SlowLeft
            },
            FishState::SlowRight | FishState::FastRight => if crossed {
                FishState::SlowLeft
            } else if alert {
                FishState::FastRight
            } else {
                FishState::SlowRight
            },
            FishState::EatingLeft => FishState::EatingLeft,
            FishState::EatingRight => FishState::EatingRight,
        }
    }

    /// The transition table: the state after a step in which the fish was hit or
    /// not, alerted or not, and crossed its bound or not.
    pub open spec fn transit(self, hit: bool, alert: bool, crossed: bool) -> FishState {
        if hit {
            self.fed()
        } else {
            self.next(alert, crossed)
        }
    }

    pub fn is_eating(self) -> (b: bool)
        ensures
            b == self.eating(),
    {
        match self {
            FishState::EatingLeft | FishState::EatingRight => true,
            _ => false,
        }
    }

    /// The state in which a fish leaves its meal; any other state is kept.
    pub fn resume(self) -> (s: FishState)
        ensures
            s == self.resumed(),
    {
        match self {
            FishState::EatingLeft => FishState::SlowLeft,
            FishState::EatingRight => FishState::SlowRight,
            s => s,
        }
    }

    /// How far a fish in this state moves in one step; negative to the left.
    pub fn step_length(self, rules: &Rules) -> (d: i64)
        requires
            rules.wf(),
        ensures
            d == self.stride(*rules),
    {
        match self {
            FishState::SlowLeft => -rules.slow_speed,
            FishState::FastLeft => -rules.fast_speed,
            FishState::SlowRight => rules.slow_speed,
            FishState::FastRight => rules.fast_speed,
            _ => 0,
        }
    }

    /// Whether a fish that has moved in this state to `x` is beyond the bound that
    /// it was heading for.
    pub fn is_across(self, x: i64, rules: &Rules) -> (b: bool)
        ensures
            b == self.crosses(x as int, *rules),
    {
        match self {
            FishState::SlowLeft | FishState::FastLeft => x < rules.left,
            FishState::SlowRight | FishState::FastRight => x > rules.right,
            _ => false,
        }
    }

    /// Looks up the transition table.
    pub fn transition(self, hit: bool, alert: bool, crossed: bool) -> (s: FishState)
        ensures
            s == self.transit(hit, alert, crossed),
    {
        match self {
            FishState::Idle => if hit {
                FishState::EatingLeft
            } else {
                FishState::SlowLeft
            },
            FishState::SlowLeft | FishState::FastLeft => if hit {
                FishState::EatingLeft
            } else if crossed {
                FishState::SlowRight
            } else if alert {
                FishState::FastLeft
            } else {
                FishState::SlowLeft
            },
            FishState::SlowRight | FishState::FastRight => if hit {
                FishState::EatingRight
            } else if crossed {
                FishState::SlowLeft
            } else if alert {
                FishState::FastRight
            } else {
                FishState::SlowRight
            },
            FishState::EatingLeft => FishState::EatingLeft,
            FishState::EatingRight => FishState::EatingRight,
        }
    }
}

/// `i` is the place of the first pellet that is closer to `at` than `radius`.
pub open spec fn is_first_within(at: Point, pellets: Seq<PelletView>, radius: int, i: int) -> bool {
    &&& 0 <= i < pellets.len()
    &&& at.within(pellets[i].at, radius)
    &&& forall|j: int| 0 <= j < i ==> !at.within((#[trigger] pellets[j]).at, radius)
}

/// The place of the first pellet that is closer to `at` than `radius`, if there
/// is one.
pub open spec fn first_within(at: Point, pellets: Seq<PelletView>, radius: int) -> Option<int> {
    if exists|i: int| is_first_within(at, pellets, radius, i) {
        Some(choose|i: int| is_first_within(at, pellets, radius, i))
    } else {
        None
    }
}

/// Some pellet is closer to `at` than `radius`.
pub open spec fn any_within(at: Point, pellets: Seq<PelletView>, radius: int) -> bool {
    exists|j: int| 0 <= j < pellets.len() && at.within((#[trigger] pellets[j]).at, radius)
}

/// What a fish that is not eating notices of the pellets.
#[derive(Clone, Copy, Debug, PartialEq, Eq)]
pub enum Sensed {
    /// The pellet at this place is the first within the hit radius.
    Hit(usize),
    /// No pellet is within the hit radius, but one is within the alert radius.
    Alerted,
    /// No pellet is within either radius.
    Calm,
}

/// Scans the pellets, oldest first, from the point `at`. The scan ends at the
/// first pellet within the hit radius; only where there is none does a pellet
/// within the alert radius count.
pub fn sense(at: Position, pellets: &Pellets, rules: &Rules) -> (s: Sensed)
    ensures
        match s {
            Sensed::Hit(i) => first_within(at@, pellets@.items, rules.hit_radius as int) == Some(
                i as int,
            ),
            Sensed::Alerted => {
                &&& first_within(at@, pellets@.items, rules.hit_radius as int) is None
                &&& any_within(at@, pellets@.items, rules.alert_radius as int)
            },
            Sensed::Calm => {
                &&& first_within(at@, pellets@.items, rules.hit_radius as int) is None
                &&& !any_within(at@, pellets@.items, rules.alert_radius as int)
            },
        },
{
    let n: usize = pellets.items.len();
    let mut alert: bool = false;
    let mut i: usize = 0;
    while i < n
        invariant
            i <= n,
            n == pellets.items@.len(),
            forall|j: int|
                0 <= j < i ==> !at@.within((#[trigger] pellets@.items[j]).at, rules.hit_radius as int),
            alert == (exists|j: int|
                0 <= j < i && at@.within((#[trigger] pellets@.items[j]).at, rules.alert_radius as int)),
        decreases n - i,
    {
        let p = pellets.items[i];
        assert(pellets@.items[i as int] == p@);
        if within(at, p.position, rules.hit_radius) {
            assert(is_first_within(at@, pellets@.items, rules.hit_radius as int, i as int));
            return Sensed::Hit(i);
        }
        if within(at, p.position, rules.alert_radius) {
            alert = true;
        }
        i = i + 1;
    }
    if alert {
        Sensed::Alerted
    } else {
        Sensed::Calm
    }
}

/// The mathematical value of a [`Fish`].
pub struct FishView {
    pub id: nat,
    pub at: Point,
    pub state: FishState,
    pub eating: TimerView,
    pub variant: FishVariant,
}

/// What one update of a fish leaves behind.
pub struct FishOutcome {
    pub fish: FishView,
    pub pellets: PelletsView,
    /// The pellet that the fish has begun to eat, if any.
    pub eaten: Option<nat>,
}

impl FishView {
    /// The fish has room for its next move: it lies within the coordinate range,
    /// or beyond it by no more than one step and heading back.
    pub open spec fn wf(self) -> bool {
        &&& -COORD_MAX - SPEED_MAX <= self.at.x <= COORD_MAX + SPEED_MAX
        &&& -COORD_MAX <= self.at.y <= COORD_MAX
        &&& self.state.heads_left() ==> self.at.x >= -COORD_MAX
        &&& self.state.heads_right() ==> self.at.x <= COORD_MAX
    }

    /// The fish after one step of motion: it moves by its stride, and its next
    /// state is decided at the place where it then is.
    pub open spec fn moved(self, alert: bool, rules: Rules) -> FishView {
        let x = self.at.x + self.state.stride(rules);
        FishView {
            at: Point { x, ..self.at },
            state: self.state.next(alert, self.state.crosses(x, rules)),
            ..self
        }
    }

    /// One update of the fish among `pellets`, `elapsed` nanoseconds after the
    /// last one.
    ///
    /// The eating timer advances first. An eating fish ignores the pellets: it
    /// stays as it is while its timer runs, and moves on slowly once it has run
    /// out. Any other fish eats the first pellet within the hit radius: the pellet
    /// goes, the timer starts over, and the fish does not move. Where there is no
    /// such pellet the fish moves, fast if a pellet is within the alert radius.
    pub open spec fn updated(self, pellets: PelletsView, elapsed: nat, rules: Rules) -> FishOutcome {
        let timer = self.eating.ticked(elapsed);
        let fish = FishView { eating: timer, ..self };
        if self.state.eating() {
            if timer.finished() {
                FishOutcome {
                    fish: (FishView { state: self.state.resumed(), ..fish }).moved(false, rules),
                    pellets,
                    eaten: None,
                }
            } else {
                FishOutcome { fish, pellets, eaten: None }
            }
        } else {
            match first_within(self.at, pellets.items, rules.hit_radius as int) {
                Some(i) => FishOutcome {
                    fish: FishView { state: self.state.fed(), eating: timer.restarted(), ..fish },
                    pellets: pellets.without(pellets.items[i].id),
                    eaten: Some(pellets.items[i].id),
                },
                None => FishOutcome {
                    fish: fish.moved(any_within(self.at, pellets.items, rules.alert_radius as int), rules),
                    pellets,
                    eaten: None,
                },
            }
        }
    }
}

/// A playfield without pellets.
pub open spec fn no_pellets() -> PelletsView {
    PelletsView { items: Seq::empty(), next_id: 0 }
}

impl FishView {
    /// The fish after `steps` updates on a playfield without pellets, each
    /// `elapsed` nanoseconds after the one before.
    pub open spec fn alone(self, elapsed: nat, rules: Rules, steps: nat) -> FishView
        decreases steps,
    {
        if steps == 0 {
            self
        } else {
            self.alone(elapsed, rules, (steps - 1) as nat).updated(no_pellets(), elapsed, rules).fish
        }
    }

    /// The fish after one update for each of `deltas`, the nanoseconds between
    /// the updates, the update `i` among the pellets `pellets[i]`.
    pub open spec fn updated_through(
        self,
        pellets: Seq<PelletsView>,
        deltas: Seq<nat>,
        rules: Rules,
    ) -> FishView
        decreases deltas.len(),
    {
        if deltas.len() == 0 {
            self
        } else {
            self.updated_through(pellets, deltas.drop_last(), rules).updated(
                pellets[deltas.len() - 1],
                deltas.last(),
                rules,
            ).fish
        }
    }
}

/// A fish.
#[derive(Clone, Copy, Debug, PartialEq, Eq)]
pub struct Fish {
    pub id: u64,
    pub position: Position,
    pub state: FishState,
    pub eating: Timer,
    pub variant: FishVariant,
}

impl View for Fish {
    type V = FishView;

    open spec fn view(&self) -> FishView {
        FishView {
            id: self.id as nat,
            at: self.position@,
            state: self.state,
            eating: self.eating@,
            variant: self.variant,
        }
    }
}

impl Fish {
    /// An idle fish at `position`, whose meals will last as long as the rules say.
    pub fn new(id: u64, position: Position, variant: FishVariant, rules: &Rules) -> (fish: Fish)
        ensures
            fish@ == (FishView {
                id: id as nat,
                at: position@,
                state: FishState::Idle,
                eating: TimerView { duration: rules.eating_time as nat, elapsed: 0, mode: TimerMode::Once },
                variant,
            }),
            position@.in_range() ==> fish@.wf(),
    {
        Fish {
            id,
            position,
            state: FishState::Idle,
            eating: Timer::new(rules.eating_time, TimerMode::Once),
            variant,
        }
    }

    /// Whether the fish has room for its next move.
    pub fn is_valid(&self) -> (ok: bool)
        ensures
            ok == self@.wf(),
    {
        let x: i64 = self.position.x;
        let y: i64 = self.position.y;
        let heads_left: bool = match self.state {
            FishState::Idle | FishState::SlowLeft | FishState::FastLeft | FishState::EatingLeft => true,
            _ => false,
        };
        -COORD_MAX - SPEED_MAX <= x && x <= COORD_MAX + SPEED_MAX && -COORD_MAX <= y && y <= COORD_MAX
            && (!heads_left || x >= -COORD_MAX) && (heads_left || x <= COORD_MAX)
    }

    /// Updates the fish among `pellets`, `elapsed` nanoseconds after the last
    /// update, and returns the pellet that it has begun to eat, if any.
    pub fn update(&mut self, pellets: &mut Pellets, elapsed: u64, rules: &Rules) -> (eaten: Option<PelletId>)
        requires
            old(self)@.wf(),
            rules.wf(),
        ensures
            final(self)@ == old(self)@.updated(old(pellets)@, elapsed as nat, *rules).fish,
            final(pellets)@ == old(self)@.updated(old(pellets)@, elapsed as nat, *rules).pellets,
            match eaten {
                Some(id) => old(self)@.updated(old(pellets)@, elapsed as nat, *rules).eaten == Some(
                    id as nat,
                ),
                None => old(self)@.updated(old(pellets)@, elapsed as nat, *rules).eaten is None,
            },
            final(self)@.wf(),
    {
        let mut timer: Timer = self.eating;
        timer.tick(elapsed);
        self.eating = timer;
        let mut alert: bool = false;
        if self.state.is_eating() {
            if !timer.is_finished() {
                return None;
            }
            self.state = self.state.resume();
        } else {
            match sense(self.position, pellets, rules) {
                Sensed::Hit(i) => {
                    let id: PelletId = pellets.items[i].id;
                    pellets.despawn(id);
                    timer.reset();
                    self.eating = timer;
                    self.state = self.state.transition(true, false, false);
                    return Some(id);
                },
                Sensed::Alerted => {
                    alert = true;
                },
                Sensed::Calm => {},
            }
        }
        let x: i64 = self.position.x + self.state.step_length(rules);
        let crossed: bool = self.state.is_across(x, rules);
        self.position = Position { x, y: self.position.y };
        self.state = self.state.transition(false, alert, crossed);
        None
    }
}

/// The steps of a fish without a hit and without alarm, state by state: an idle
/// fish sets off slowly to the left; a fish on its way goes on slowly, or turns
/// round slowly where it has crossed its bound; an eating fish stays with its
/// meal.
pub proof fn quiet_transition_table()
    ensures
        FishState::Idle.transit(false, false, false) == FishState::SlowLeft,
        FishState::Idle.transit(false, false, true) == FishState::SlowLeft,
        FishState::SlowLeft.transit(false, false, false) == FishState::SlowLeft,
        FishState::SlowLeft.transit(false, false, true) == FishState::SlowRight,
        FishState::FastLeft.transit(false, false, false) == FishState::SlowLeft,
        FishState::FastLeft.transit(false, false, true) == FishState::SlowRight,
        FishState::SlowRight.transit(false, false, false) == FishState::SlowRight,
        FishState::SlowRight.transit(false, false, true) == FishState::SlowLeft,
        FishState::FastRight.transit(false, false, false) == FishState::SlowRight,
        FishState::FastRight.transit(false, false, true) == FishState::SlowLeft,
        FishState::EatingLeft.transit(false, false, false) == FishState::EatingLeft,
        FishState::EatingLeft.transit(false, false, true) == FishState::EatingLeft,
        FishState::EatingRight.transit(false, false, false) == FishState::EatingRight,
        FishState::EatingRight.transit(false, false, true) == FishState::EatingRight,
{
}

/// With no pellet within the hit or the alert radius, the state of a fish after
/// an update is the entry of the transition table for its state and for
/// whether its move took it across its bound. For a fish whose meal ends with
/// this update, the state is the one in which it leaves the meal.
pub proof fn quiet_update_follows_the_table(
    fish: FishView,
    pellets: PelletsView,
    elapsed: nat,
    rules: Rules,
)
    requires
        !any_within(fish.at, pellets.items, rules.hit_radius as int),
        !any_within(fish.at, pellets.items, rules.alert_radius as int),
    ensures
        ({
            let after = fish.updated(pellets, elapsed, rules);
            let state = if fish.state.eating() && fish.eating.ticked(elapsed).finished() {
                fish.state.resumed()
            } else {
                fish.state
            };
            let crossed = state.crosses(fish.at.x + state.stride(rules), rules);
            &&& after.fish.state == state.transit(false, false, crossed)
            &&& after.fish.at.x == fish.at.x + state.stride(rules)
            &&& after.pellets == pellets
            &&& after.eaten is None
        }),
{
}

proof fn lemma_none_within(at: Point, pellets: Seq<PelletView>, radius: int)
    ensures
        first_within(at, pellets, radius) is None <==> !any_within(at, pellets, radius),
        first_within(at, pellets, radius) matches Some(i) ==> is_first_within(at, pellets, radius, i),
{
    if any_within(at, pellets, radius) {
        let j = choose|j: int| 0 <= j < pellets.len() && at.within((#[trigger] pellets[j]).at, radius);
        lemma_first_among(at, pellets, radius, j);
    }
}

proof fn lemma_first_among(at: Point, pellets: Seq<PelletView>, radius: int, j: int)
    requires
        0 <= j < pellets.len(),
        at.within(pellets[j].at, radius),
    ensures
        exists|i: int| is_first_within(at, pellets, radius, i),
    decreases j,
{
    if exists|k: int| 0 <= k < j && at.within((#[trigger] pellets[k]).at, radius) {
        let k = choose|k: int| 0 <= k < j && at.within((#[trigger] pellets[k]).at, radius);
        lemma_first_among(at, pellets, radius, k);
    } else {
        assert(is_first_within(at, pellets, radius, j));
    }
}

/// While its eating timer has time left, an eating fish stays where it is and
/// as it is, and takes no notice of the pellets, however near they are.
pub proof fn eating_fish_rests(fish: FishView, pellets: PelletsView, elapsed: nat, rules: Rules)
    requires
        fish.state.eating(),
        fish.eating.ticked(elapsed).remaining() > 0,
    ensures
        fish.updated(pellets, elapsed, rules).fish.at == fish.at,
        fish.updated(pellets, elapsed, rules).fish.state == fish.state,
        fish.updated(pellets, elapsed, rules).pellets == pellets,
        fish.updated(pellets, elapsed, rules).eaten is None,
{
}

/// A meal lasts exactly as long as the eating timer: an eating fish is still
/// eating after an update exactly if the time on its timer and the time of the
/// update add up to less than the timer's duration.
pub proof fn meal_lasts_as_long_as_the_timer(
    fish: FishView,
    pellets: PelletsView,
    elapsed: nat,
    rules: Rules,
)
    requires
        fish.state.eating(),
        fish.eating.mode is Once,
        fish.eating.wf(),
    ensures
        fish.updated(pellets, elapsed, rules).fish.state.eating() <==> fish.eating.elapsed + elapsed
            < fish.eating.duration,
        fish.updated(pellets, elapsed, rules).fish.eating == fish.eating.ticked(elapsed),
{
}

/// A fish that moves is turned round by the update that takes it across its
/// bound: what decides is where the fish is after the move.
pub proof fn turnaround_follows_the_move(
    fish: FishView,
    pellets: PelletsView,
    elapsed: nat,
    rules: Rules,
)
    requires
        fish.state is SlowLeft || fish.state is FastLeft || fish.state is SlowRight
            || fish.state is FastRight,
        !any_within(fish.at, pellets.items, rules.hit_radius as int),
    ensures
        ({
            let after = fish.updated(pellets, elapsed, rules).fish;
            &&& after.at.x == fish.at.x + fish.state.stride(rules)
            &&& after.at.y == fish.at.y
            &&& fish.state.heads_left() ==> (after.state is SlowRight <==> after.at.x < rules.left)
            &&& fish.state.heads_left() ==> (after.state.heads_left() <==> after.at.x >= rules.left)
            &&& fish.state.heads_right() ==> (after.state is SlowLeft <==> after.at.x > rules.right)
            &&& fish.state.heads_right() ==> (after.state.heads_right() <==> after.at.x <= rules.right)
        }),
{
}

/// A fish that is not eating and has one pellet or more within its hit radius
/// eats exactly one of them, the oldest: that pellet goes, the others stay in
/// their order, and the fish is eating.
pub proof fn one_pellet_per_meal(fish: FishView, pellets: PelletsView, elapsed: nat, rules: Rules)
    requires
        pellets.ordered(),
        !fish.state.eating(),
        any_within(fish.at, pellets.items, rules.hit_radius as int),
    ensures
        ({
            let after = fish.updated(pellets, elapsed, rules);
            &&& first_within(fish.at, pellets.items, rules.hit_radius as int) matches Some(i)
            &&& is_first_within(fish.at, pellets.items, rules.hit_radius as int, i)
            &&& after.eaten == Some(pellets.items[i].id)
            &&& after.pellets.items == pellets.items.remove(i)
            &&& after.pellets.items.len() == pellets.items.len() - 1
            &&& after.pellets.ordered()
            &&& after.fish.state.eating()
            &&& after.fish.state == fish.state.fed()
            &&& after.fish.at == fish.at
            &&& after.fish.eating.elapsed == 0
        }),
{
    lemma_none_within(fish.at, pellets.items, rules.hit_radius as int);
    let i = first_within(fish.at, pellets.items, rules.hit_radius as int)->0;
    crate::pellet::despawn_removes_one(pellets, i);
}

/// A fish that is eating, or has no pellet within its hit radius, leaves the
/// pellets as they are.
pub proof fn no_hit_no_meal(fish: FishView, pellets: PelletsView, elapsed: nat, rules: Rules)
    requires
        fish.state.eating() || !any_within(fish.at, pellets.items, rules.hit_radius as int),
    ensures
        fish.updated(pellets, elapsed, rules).pellets == pellets,
        fish.updated(pellets, elapsed, rules).eaten is None,
        !fish.state.eating() ==> !fish.updated(pellets, elapsed, rules).fish.state.eating(),
{
}

/// An update keeps a fish within the room that it needs for its next move, and
/// changes neither its identity, nor its kind, nor its height.
pub proof fn update_keeps_room(fish: FishView, pellets: PelletsView, elapsed: nat, rules: Rules)
    requires
        fish.wf(),
        rules.wf(),
    ensures
        fish.updated(pellets, elapsed, rules).fish.wf(),
        fish.updated(pellets, elapsed, rules).fish.id == fish.id,
        fish.updated(pellets, elapsed, rules).fish.variant == fish.variant,
        fish.updated(pellets, elapsed, rules).fish.at.y == fish.at.y,
{
}

/// A fish whose meal has just begun sits through every update that comes before
/// the times between the updates add up to the eating time, whatever pellets
/// are about; the update that brings the sum to the eating time or beyond it
/// ends the meal.
pub proof fn meal_ends_with_the_update_that_completes_it(
    fish: FishView,
    pellets: Seq<PelletsView>,
    deltas: Seq<nat>,
    rules: Rules,
)
    requires
        fish.state.eating(),
        fish.eating.mode is Once,
        fish.eating.elapsed == 0,
    ensures
        crate::timer::total(deltas) < fish.eating.duration ==> {
            &&& fish.updated_through(pellets, deltas, rules).state == fish.state
            &&& fish.updated_through(pellets, deltas, rules).at == fish.at
            &&& fish.updated_through(pellets, deltas, rules).eating == (TimerView {
                elapsed: crate::timer::total(deltas),
                ..fish.eating
            })
        },
        deltas.len() > 0 && crate::timer::total(deltas.drop_last()) < fish.eating.duration
            <= crate::timer::total(deltas) ==> {
            &&& !fish.updated_through(pellets, deltas, rules).state.eating()
            &&& fish.updated_through(pellets, deltas.drop_last(), rules).state == fish.state
        },
    decreases deltas.len(),
{
    if deltas.len() > 0 {
        meal_ends_with_the_update_that_completes_it(fish, pellets, deltas.drop_last(), rules);
    }
}

/// On a playfield without pellets a fish that is not eating is on its way from
/// the first update on: slowly to the left or slowly to the right, never idle
/// and never eating.
pub proof fn lone_fish_keeps_roaming(fish: FishView, elapsed: nat, rules: Rules, steps: nat)
    requires
        !fish.state.eating(),
        steps >= 1,
    ensures
        fish.alone(elapsed, rules, steps).state is SlowLeft || fish.alone(elapsed, rules, steps).state
            is SlowRight,
        fish.alone(elapsed, rules, steps).at.y == fish.at.y,
    decreases steps,
{
    if steps > 1 {
        lone_fish_keeps_roaming(fish, elapsed, rules, (steps - 1) as nat);
    }
    let there = fish.alone(elapsed, rules, (steps - 1) as nat);
    assert(fish.alone(elapsed, rules, steps) == there.updated(no_pellets(), elapsed, rules).fish);
}

/// On a playfield without pellets a fish on its way to the left goes on, one
/// slow stride per update, as long as it is not beyond the left bound.
proof fn lemma_left_run(fish: FishView, elapsed: nat, rules: Rules, steps: nat)
    requires
        fish.state is SlowLeft,
        rules.slow_speed > 0,
        fish.at.x - steps * rules.slow_speed >= rules.left,
    ensures
        fish.alone(elapsed, rules, steps).state is SlowLeft,
        fish.alone(elapsed, rules, steps).at.x == fish.at.x - steps * rules.slow_speed,
    decreases steps,
{
    if steps == 0 {
        assert(steps * rules.slow_speed == 0) by (nonlinear_arith)
            requires
                steps == 0,
        ;
    } else {
        let before = (steps - 1) as nat;
        assert(steps * rules.slow_speed == before * rules.slow_speed + rules.slow_speed)
            by (nonlinear_arith)
            requires
                before == steps - 1,
        ;
        lemma_left_run(fish, elapsed, rules, before);
    }
}

proof fn lemma_right_run(fish: FishView, elapsed: nat, rules: Rules, steps: nat)
    requires
        fish.state is SlowRight,
        rules.slow_speed > 0,
        fish.at.x + steps * rules.slow_speed <= rules.right,
    ensures
        fish.alone(elapsed, rules, steps).state is SlowRight,
        fish.alone(elapsed, rules, steps).at.x == fish.at.x + steps * rules.slow_speed,
    decreases steps,
{
    if steps == 0 {
        assert(steps * rules.slow_speed == 0) by (nonlinear_arith)
            requires
                steps == 0,
        ;
    } else {
        let before = (steps - 1) as nat;
        assert(steps * rules.slow_speed == before * rules.slow_speed + rules.slow_speed)
            by (nonlinear_arith)
            requires
                before == steps - 1,
        ;
        lemma_right_run(fish, elapsed, rules, before);
    }
}

/// No state is the last one. On a playfield without pellets, a fish that goes
/// slowly to the left from a place at the left bound or to the right of it turns
/// round with the update that takes it across the bound, after
/// `(x - left) / slow_speed + 1` updates, and goes to the left until then.
pub proof fn lone_fish_turns_at_the_left_bound(fish: FishView, elapsed: nat, rules: Rules)
    requires
        fish.state is SlowLeft,
        rules.slow_speed > 0,
        fish.at.x >= rules.left,
    ensures
        ({
            let turn = ((fish.at.x - rules.left) / (rules.slow_speed as int) + 1) as nat;
            &&& fish.alone(elapsed, rules, turn).state is SlowRight
            &&& fish.alone(elapsed, rules, turn).at.x < rules.left
            &&& forall|n: nat| n < turn ==> (#[trigger] fish.alone(elapsed, rules, n)).state is SlowLeft
        }),
{
    let room = fish.at.x - rules.left;
    let speed = rules.slow_speed as int;
    let whole = room / speed;
    vstd::arithmetic::div_mod::lemma_fundamental_div_mod(room, speed);
    let turn = (whole + 1) as nat;
    assert(whole * speed <= room < (whole + 1) * speed) by (nonlinear_arith)
        requires
            room == speed * whole + room % speed,
            0 <= room % speed < speed,
    ;
    lemma_left_run(fish, elapsed, rules, whole as nat);
    assert forall|n: nat| n < turn implies (#[trigger] fish.alone(elapsed, rules, n)).state is SlowLeft by {
        assert(n * speed <= whole * speed) by (nonlinear_arith)
            requires
                n <= whole,
                speed > 0,
        ;
        lemma_left_run(fish, elapsed, rules, n);
    }
}

/// The same at the right bound: a fish that goes slowly to the right from a
/// place at the right bound or to the left of it turns round after
/// `(right - x) / slow_speed + 1` updates.
pub proof fn lone_fish_turns_at_the_right_bound(fish: FishView, elapsed: nat, rules: Rules)
    requires
        fish.state is SlowRight,
        rules.slow_speed > 0,
        fish.at.x <= rules.right,
    ensures
        ({
            let turn = ((rules.right - fish.at.x) / (rules.slow_speed as int) + 1) as nat;
            &&& fish.alone(elapsed, rules, turn).state is SlowLeft
            &&& fish.alone(elapsed, rules, turn).at.x > rules.right
            &&& forall|n: nat| n < turn ==> (#[trigger] fish.alone(elapsed, rules, n)).state is SlowRight
        }),
{
    let room = rules.right - fish.at.x;
    let speed = rules.slow_speed as int;
    let whole = room / speed;
    vstd::arithmetic::div_mod::lemma_fundamental_div_mod(room, speed);
    let turn = (whole + 1) as nat;
    assert(whole * speed <= room < (whole + 1) * speed) by (nonlinear_arith)
        requires
            room == speed * whole + room % speed,
            0 <= room % speed < speed,
    ;
    lemma_right_run(fish, elapsed, rules, whole as nat);
    assert forall|n: nat| n < turn implies (#[trigger] fish.alone(elapsed, rules, n)).state is SlowRight by {
        assert(n * speed <= whole * speed) by (nonlinear_arith)
            requires
                n <= whole,
                speed > 0,
        ;
        lemma_right_run(fish, elapsed, rules, n);
    }
}

} // verus!
