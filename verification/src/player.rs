//! The player: a dispenser that follows the pointer along the playfield and
//! drops a pellet when the button goes down, at most once per cooldown.

use vstd::prelude::*;
use crate::geometry::{Point, Position};
use crate::pellet::{PelletId, Pellets, PelletsView};
use crate::rules::Rules;
use crate::timer::{Timer, TimerMode, TimerView};

verus! {

/// What the pointer did, as the input layer has decoded it.
#[derive(Clone, Copy, Debug, PartialEq, Eq)]
pub enum InputEvent {
    /// The button went down (`pressed`) or up.
    Button { pressed: bool },
    /// The pointer moved. `x` is where it is along the playfield, in sub-units;
    /// `None` where the camera could not map it.
    Moved { x: Option<i64> },
}

/// The mathematical value of a [`Player`].
pub struct PlayerView {
    pub at: Point,
    pub cooldown: TimerView,
}

/// The player and the pellets while the events of one step are handled.
pub struct ControlView {
    pub player: PlayerView,
    pub pellets: PelletsView,
    /// The pellet spawned in this step so far, if any.
    pub spawned: Option<nat>,
}

impl ControlView {
    /// Whether a button that goes down now spawns a pellet: none was spawned in
    /// this step yet, the cooldown has run out, and an identity is left.
    pub open spec fn ready(self) -> bool {
        &&& self.spawned is None
        &&& self.player.cooldown.finished()
        &&& self.pellets.has_room()
    }

    /// The state after one event.
    ///
    /// A button that goes down while the player is ready spawns a pellet where the
    /// player is and starts the cooldown over. A pointer that moved to a place
    /// within the playfield's bounds takes the player there. Everything else is
    /// ignored.
    pub open spec fn handled(self, event: InputEvent, rules: Rules) -> ControlView {
        match event {
            InputEvent::Button { pressed } => if pressed && self.ready() {
                ControlView {
                    player: PlayerView { cooldown: self.player.cooldown.restarted(), ..self.player },
                    pellets: self.pellets.spawned(self.player.at),
                    spawned: Some(self.pellets.next_id),
                }
            } else {
                self
            },
            InputEvent::Moved { x: Some(x) } => if rules.left <= x <= rules.right {
                ControlView {
                    player: PlayerView { at: Point { x: x as int, ..self.player.at }, ..self.player },
                    ..self
                }
            } else {
                self
            },
            InputEvent::Moved { x: None } => self,
        }
    }

    /// The state after the events, handled in their order.
    pub open spec fn handled_all(self, events: Seq<InputEvent>, rules: Rules) -> ControlView
        decreases events.len(),
    {
        if events.len() == 0 {
            self
        } else {
            self.handled_all(events.drop_last(), rules).handled(events.last(), rules)
        }
    }
}

impl PlayerView {
    pub open spec fn wf(self) -> bool {
        self.at.in_range()
    }

    /// One step of player control: the cooldown advances by `elapsed`
    /// nanoseconds, then the events are handled in their order.
    pub open spec fn controlled(
        self,
        pellets: PelletsView,
        elapsed: nat,
        events: Seq<InputEvent>,
        rules: Rules,
    ) -> ControlView {
        (ControlView {
            player: PlayerView { cooldown: self.cooldown.ticked(elapsed), ..self },
            pellets,
            spawned: None,
        }).handled_all(events, rules)
    }
}

/// Some event of `events` is a button that goes down.
pub open spec fn any_press(events: Seq<InputEvent>) -> bool {
    exists|i: int| 0 <= i < events.len() && #[trigger] events[i] == (InputEvent::Button { pressed: true })
}

/// The player.
#[derive(Clone, Copy, Debug, PartialEq, Eq)]
pub struct Player {
    pub position: Position,
    pub cooldown: Timer,
}

impl View for Player {
    type V = PlayerView;

    open spec fn view(&self) -> PlayerView {
        PlayerView { at: self.position@, cooldown: self.cooldown@ }
    }
}

impl Player {
    /// A player at `position` who has to wait one cooldown for the first pellet.
    pub fn new(position: Position, rules: &Rules) -> (player: Player)
        ensures
            player@ == (PlayerView {
                at: position@,
                cooldown: TimerView {
                    duration: rules.spawn_cooldown as nat,
                    elapsed: 0,
                    mode: TimerMode::Once,
                },
            }),
    {
        Player { position, cooldown: Timer::new(rules.spawn_cooldown, TimerMode::Once) }
    }

    /// Whether the player lies within the coordinate range.
    pub fn is_valid(&self) -> (ok: bool)
        ensures
            ok == self@.wf(),
    {
        self.position.in_range()
    }

    /// Handles the events of one step, `elapsed` nanoseconds after the last one,
    /// and returns the pellet that was spawned, if any.
    pub fn control(
        &mut self,
        pellets: &mut Pellets,
        elapsed: u64,
        events: &Vec<InputEvent>,
        rules: &Rules,
    ) -> (spawned: Option<PelletId>)
        ensures
            final(self)@ == old(self)@.controlled(old(pellets)@, elapsed as nat, events@, *rules).player,
            final(pellets)@ == old(self)@.controlled(old(pellets)@, elapsed as nat, events@, *rules).pellets,
            match spawned {
                Some(id) => old(self)@.controlled(old(pellets)@, elapsed as nat, events@, *rules).spawned
                    == Some(id as nat),
                None => old(self)@.controlled(old(pellets)@, elapsed as nat, events@, *rules).spawned is None,
            },
            old(self)@.wf() && old(pellets)@.wf() && rules.wf() ==> final(self)@.wf(),
            old(self)@.wf() && old(pellets)@.wf() && rules.wf() ==> final(pellets)@.wf(),
    {
        let mut cooldown: Timer = self.cooldown;
        cooldown.tick(elapsed);
        self.cooldown = cooldown;
        let ghost start = ControlView { player: self@, pellets: pellets@, spawned: None };
        let ghost sane = old(self)@.wf() && old(pellets)@.wf() && rules.wf();
        let mut spawned: Option<PelletId> = None;
        let n: usize = events.len();
        let mut i: usize = 0;
        while i < n
            invariant
                i <= n,
                n == events@.len(),
                start.handled_all(events@.take(i as int), *rules) == (ControlView {
                    player: self@,
                    pellets: pellets@,
                    spawned: match spawned {
                        Some(id) => Some(id as nat),
                        None => None,
                    },
                }),
                sane ==> self@.wf() && pellets@.wf() && rules.wf(),
                cooldown == self.cooldown,
            decreases n - i,
        {
            let event: InputEvent = events[i];
            proof {
                assert(events@.take(i as int + 1).drop_last() =~= events@.take(i as int));
            }
            match event {
                InputEvent::Button { pressed } => {
                    if pressed && spawned.is_none() && cooldown.is_finished() {
                        match pellets.spawn(self.position) {
                            Some(id) => {
                                cooldown.reset();
                                self.cooldown = cooldown;
                                spawned = Some(id);
                            },
                            None => {},
                        }
                    }
                },
                InputEvent::Moved { x: Some(x) } => {
                    if rules.left <= x && x <= rules.right {
                        self.position = Position { x, y: self.position.y };
                    }
                },
                InputEvent::Moved { x: None } => {},
            }
            i = i + 1;
        }
        assert(events@.take(n as int) =~= events@);
        spawned
    }
}

proof fn lemma_handling_so_far(start: ControlView, events: Seq<InputEvent>, rules: Rules)
    requires
        start.spawned is None,
    ensures
        ({
            let end = start.handled_all(events, rules);
            &&& end.spawned is Some ==> {
                &&& any_press(events)
                &&& start.ready()
                &&& end.pellets.items.len() == start.pellets.items.len() + 1
                &&& end.pellets.items.drop_last() == start.pellets.items
                &&& end.pellets.items.last().id == start.pellets.next_id
                &&& end.spawned == Some(start.pellets.next_id)
                &&& end.pellets.next_id == start.pellets.next_id + 1
                &&& end.player.cooldown == start.player.cooldown.restarted()
            }
            &&& end.spawned is None ==> {
                &&& !(any_press(events) && start.ready())
                &&& end.pellets == start.pellets
                &&& end.player.cooldown == start.player.cooldown
            }
            &&& end.player.at.y == start.player.at.y
        }),
    decreases events.len(),
{
    if events.len() > 0 {
        let front = events.drop_last();
        lemma_handling_so_far(start, front, rules);
        if any_press(front) {
            let k = choose|k: int| 0 <= k < front.len() && #[trigger] front[k] == (InputEvent::Button {
                pressed: true,
            });
            assert(events[k] == front[k]);
        }
        if any_press(events) && !any_press(front) {
            let k = choose|k: int| 0 <= k < events.len() && #[trigger] events[k] == (InputEvent::Button {
                pressed: true,
            });
            if k < front.len() {
                assert(front[k] == events[k]);
            }
        }
    }
}

/// A step spawns a pellet exactly if a button went down in it while the
/// cooldown had run out and an identity was left; it never spawns more than one,
/// and a spawn starts the cooldown over. The player's height never changes.
pub proof fn spawn_needs_press_and_cooldown(
    player: PlayerView,
    pellets: PelletsView,
    elapsed: nat,
    events: Seq<InputEvent>,
    rules: Rules,
)
    ensures
        ({
            let end = player.controlled(pellets, elapsed, events, rules);
            let due = any_press(events) && player.cooldown.ticked(elapsed).finished()
                && pellets.has_room();
            &&& end.spawned is Some <==> due
            &&& due ==> {
                &&& end.spawned == Some(pellets.next_id)
                &&& end.pellets.items.len() == pellets.items.len() + 1
                &&& end.pellets.items.drop_last() == pellets.items
                &&& end.pellets.items.last().id == pellets.next_id
                &&& end.pellets.next_id == pellets.next_id + 1
                &&& end.player.cooldown == player.cooldown.ticked(elapsed).restarted()
            }
            &&& !due ==> {
                &&& end.pellets == pellets
                &&& end.player.cooldown == player.cooldown.ticked(elapsed)
            }
            &&& end.player.at.y == player.at.y
        }),
{
    let start = ControlView {
        player: PlayerView { cooldown: player.cooldown.ticked(elapsed), ..player },
        pellets,
        spawned: None,
    };
    lemma_handling_so_far(start, events, rules);
}

/// After a step that spawned a pellet, no step spawns another until the steps'
/// times add up to the cooldown: whatever the events of the next step, it
/// spawns nothing if it comes sooner than that.
pub proof fn no_second_pellet_within_cooldown(
    player: PlayerView,
    pellets: PelletsView,
    elapsed: nat,
    events: Seq<InputEvent>,
    rules: Rules,
    wait: nat,
    later: Seq<InputEvent>,
)
    requires
        player.cooldown.mode is Once,
        player.controlled(pellets, elapsed, events, rules).spawned is Some,
        wait < player.cooldown.duration,
    ensures
        ({
            let first = player.controlled(pellets, elapsed, events, rules);
            let second = first.player.controlled(first.pellets, wait, later, rules);
            &&& second.spawned is None
            &&& second.pellets == first.pellets
        }),
{
    spawn_needs_press_and_cooldown(player, pellets, elapsed, events, rules);
    let first = player.controlled(pellets, elapsed, events, rules);
    spawn_needs_press_and_cooldown(first.player, first.pellets, wait, later, rules);
}

/// Once the cooldown has run out, the next button that goes down spawns a
/// pellet where the player then is.
pub proof fn press_after_cooldown_spawns(
    player: PlayerView,
    pellets: PelletsView,
    elapsed: nat,
    rules: Rules,
)
    requires
        player.cooldown.mode is Once,
        player.cooldown.wf(),
        player.cooldown.elapsed + elapsed >= player.cooldown.duration,
        pellets.has_room(),
    ensures
        ({
            let end = player.controlled(
                pellets,
                elapsed,
                seq![InputEvent::Button { pressed: true }],
                rules,
            );
            &&& end.spawned == Some(pellets.next_id)
            &&& end.pellets == pellets.spawned(player.at)
        }),
{
    let events = seq![InputEvent::Button { pressed: true }];
    let start = ControlView {
        player: PlayerView { cooldown: player.cooldown.ticked(elapsed), ..player },
        pellets,
        spawned: None,
    };
    assert(start.handled_all(events.drop_last(), rules) == start);
}

/// A pointer that moves to a place outside the playfield's bounds, or that the
/// camera cannot map, leaves the player where it is; one that moves to a place
/// within the bounds takes the player exactly there.
pub proof fn pointer_moves_within_bounds_only(state: ControlView, x: Option<i64>, rules: Rules)
    ensures
        ({
            let end = state.handled(InputEvent::Moved { x }, rules);
            &&& end.pellets == state.pellets
            &&& end.spawned == state.spawned
            &&& end.player.cooldown == state.player.cooldown
            &&& end.player.at.y == state.player.at.y
            &&& end.player.at.x == match x {
                Some(x) => if rules.left <= x <= rules.right {
                    x as int
                } else {
                    state.player.at.x
                },
                None => state.player.at.x,
            }
        }),
{
}

} // verus!
